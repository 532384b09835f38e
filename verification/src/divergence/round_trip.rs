//! What is written of a window can be read back.

use vstd::prelude::*;

use crate::divergence::analysis::{SlotFigures, STEP};
use crate::divergence::input::{InputFault, LineFault};
use crate::json::Json;
use crate::number::{Num, INFINITE};

verus! {

/// Whether a price is a finite number.
pub open spec fn is_finite(p: Num) -> bool {
    p.magnitude() < INFINITE
}

/// What a log shows of a price: the number, or nothing where JSON has no number
/// for it.
pub open spec fn price_json(p: Num) -> Json {
    if is_finite(p) {
        Json::Float(p.bits)
    } else {
        Json::Null
    }
}

/// What a log shows of the prices of a slot.
pub open spec fn prices_json(cells: Seq<(usize, Num)>) -> Seq<(Seq<char>, Json)> {
    cells.map_values(
        |c: (usize, Num)|
            (
                crate::venue::venue_name(crate::venue::minute_venues()[c.0 as int]),
                price_json(c.1),
            ),
    )
}

/// What a log shows of a slot.
pub open spec fn row_entries(row: (u64, Seq<(usize, Num)>)) -> Seq<(Seq<char>, Json)> {
    crate::ndjson::row(row.0, prices_json(row.1))
}

/// The lines that a log holds of some slots.
pub open spec fn row_texts(rows: Seq<(u64, Seq<(usize, Num)>)>) -> Seq<Seq<char>> {
    rows.map_values(|row: (u64, Seq<(usize, Num)>)| crate::json::object_text(row_entries(row)))
}

/// Whether the line of a slot is a single one that reads back.
pub open spec fn is_good_line(row: (u64, Seq<(usize, Num)>)) -> bool {
    crate::ndjson::is_one_line(row_entries(row)) && crate::ndjson::reads_back(row_entries(row))
}

/// The time of the slot with the number `i` in a window that starts at `from`.
pub open spec fn row_time(from: u64, i: int) -> int {
    from + i * STEP
}

/// Whether a slot at `ts` is among the first `n` from `from` on.
pub open spec fn is_written(from: u64, n: nat, ts: u64) -> bool {
    exists|i: int| 0 <= i < n && ts == #[trigger] row_time(from, i)
}

/// What is left of a column: its finite prices in the first `n` slots from
/// `from` on.
pub open spec fn kept(column: Map<u64, Num>, from: u64, n: nat) -> Map<u64, Num> {
    Map::new(
        |ts: u64| is_written(from, n, ts) && column.contains_key(ts) && is_finite(column[ts]),
        |ts: u64| column[ts],
    )
}

/// A key of an object finds the value that stands behind it.
pub proof fn lemma_lookup(entries: Seq<(Seq<char>, Json)>, key: Seq<char>, i: int)
    requires
        crate::json::has_distinct_keys(entries),
        0 <= i < entries.len(),
        entries[i].0 == key,
    ensures
        crate::json::lookup(entries, key) == Some(entries[i].1),
    decreases entries.len(),
{
    if i > 0 {
        let rest = entries.skip(1);
        assert(entries[0].0 != entries[i].0);
        assert forall|a: int, b: int| 0 <= a < b < rest.len() implies (#[trigger] rest[a]).0 != (
        #[trigger] rest[b]).0 by {
            assert(rest[a] == entries[a + 1] && rest[b] == entries[b + 1]);
        }
        assert(rest[i - 1] == entries[i]);
        lemma_lookup(rest, key, i - 1);
    }
}

proof fn lemma_lookup_nothing(entries: Seq<(Seq<char>, Json)>, key: Seq<char>)
    requires
        !crate::json::has_key(entries, key),
    ensures
        crate::json::lookup(entries, key) is None,
    decreases entries.len(),
{
    if entries.len() > 0 {
        let rest = entries.skip(1);
        assert(entries[0].0 != key);
        assert forall|i: int| 0 <= i < rest.len() implies (#[trigger] rest[i]).0 != key by {
            assert(rest[i] == entries[i + 1]);
        }
        lemma_lookup_nothing(rest, key);
    }
}

proof fn lemma_row(columns: Seq<Map<u64, Num>>, ts: u64)
    requires
        columns.len() == crate::venue::minute_venues().len(),
    ensures
        ({
            let entries = row_entries((ts, crate::grid::cells_at(columns, ts)));
            &&& crate::divergence::input::time_in(entries) == Some(ts)
            &&& forall|v: int|
                0 <= v < columns.len() ==> #[trigger] crate::divergence::input::price_in(
                    entries,
                    crate::venue::minute_venues()[v],
                ) == (if columns[v].contains_key(ts) && is_finite(columns[v][ts]) {
                    Some(columns[v][ts])
                } else {
                    None
                })
        }),
{
    let venues = crate::venue::minute_venues();
    let cells = crate::grid::cells_at(columns, ts);
    let shown = prices_json(cells);
    let entries = row_entries((ts, cells));
    crate::grid::cells_are_what_is_held(columns, ts);
    assert forall|i: int, j: int| 0 <= i < j < shown.len() implies (#[trigger] shown[i]).0 != (
    #[trigger] shown[j]).0 by {
        assert(cells[i].0 < cells[j].0);
        crate::venue::names_are_distinct(venues[cells[i].0 as int], venues[cells[j].0 as int]);
    }
    assert forall|i: int| 0 <= i < shown.len() implies (#[trigger] shown[i]).0 != "ts"@ by {
        crate::venue::names_are_distinct(venues[cells[i].0 as int], venues[0]);
    }
    crate::ndjson::row_of_distinct_keys(ts, shown);
    let head = seq![("ts"@, Json::Count(ts))];
    assert(entries == head + shown);
    assert forall|i: int, j: int| 0 <= i < j < entries.len() implies (#[trigger] entries[i]).0 != (
    #[trigger] entries[j]).0 by {
        assert(entries[j] == shown[j - 1]);
        if i > 0 {
            assert(entries[i] == shown[i - 1]);
        }
    }
    lemma_lookup(entries, "ts"@, 0);
    assert forall|v: int| 0 <= v < columns.len() implies #[trigger]
    crate::divergence::input::price_in(entries, venues[v]) == (if columns[v].contains_key(ts)
        && is_finite(columns[v][ts]) {
        Some(columns[v][ts])
    } else {
        None
    }) by {
        let name = crate::venue::venue_name(venues[v]);
        if columns[v].contains_key(ts) {
            let k = choose|k: int| 0 <= k < cells.len() && cells[k] == (v as usize, columns[v][ts]);
            assert(entries[k + 1] == shown[k]);
            lemma_lookup(entries, name, k + 1);
        } else {
            assert forall|i: int| 0 <= i < entries.len() implies (#[trigger] entries[i]).0
                != name by {
                if i > 0 {
                    assert(entries[i] == shown[i - 1]);
                    let w = cells[i - 1].0 as int;
                    assert(columns[w].contains_key(ts));
                    crate::venue::names_are_distinct(venues[w], venues[v]);
                } else {
                    crate::venue::names_are_distinct(venues[v], venues[v]);
                }
            }
            lemma_lookup_nothing(entries, name);
        }
    }
}

proof fn lemma_reads_back(columns: Seq<Map<u64, Num>>, from: u64, n: nat)
    requires
        columns.len() == crate::venue::minute_venues().len(),
        from % STEP == 0,
        from + n * STEP <= u64::MAX,
        forall|i: int|
            0 <= i < crate::grid::held_rows(columns, from, n, STEP).len()
                ==> crate::ndjson::reads_back(
                row_entries(#[trigger] crate::grid::held_rows(columns, from, n, STEP)[i]),
            ),
    ensures
        crate::divergence::input::added_up(
            row_texts(crate::grid::held_rows(columns, from, n, STEP)),
        ) == Ok::<Seq<Map<u64, Num>>, (nat, LineFault)>(
            columns.map_values(|c: Map<u64, Num>| kept(c, from, n)),
        ),
    decreases n,
{
    let rows = crate::grid::held_rows(columns, from, n, STEP);
    let left = columns.map_values(|c: Map<u64, Num>| kept(c, from, n));
    if n == 0 {
        assert(row_texts(rows) =~= Seq::empty());
        assert forall|v: int| 0 <= v < left.len() implies #[trigger] left[v]
            == crate::divergence::input::no_prices()[v] by {
            assert(left[v] =~= Map::<u64, Num>::empty());
        }
        assert(left =~= crate::divergence::input::no_prices());
    } else {
        let m = (n - 1) as nat;
        let before = crate::grid::held_rows(columns, from, m, STEP);
        let ts = crate::grid::slot_time(from as nat, m, STEP as nat) as u64;
        let cells = crate::grid::cells_at(columns, ts);
        let kept_before = columns.map_values(|c: Map<u64, Num>| kept(c, from, m));
        assert(ts == row_time(from, m as int));
        assert(ts % STEP == 0);
        assert forall|i: int| 0 <= i < before.len() implies crate::ndjson::reads_back(
            row_entries(#[trigger] before[i]),
        ) by {
            assert(rows[i] == before[i]);
        }
        lemma_reads_back(columns, from, m);
        crate::grid::cells_are_what_is_held(columns, ts);
        assert forall|t: u64| #[trigger] is_written(from, n, t) <==> is_written(from, m, t) || t
            == ts by {
            if is_written(from, n, t) {
                let i = choose|i: int| 0 <= i < n && t == #[trigger] row_time(from, i);
                assert(i < m ==> is_written(from, m, t));
            }
            if is_written(from, m, t) {
                let i = choose|i: int| 0 <= i < m && t == #[trigger] row_time(from, i);
                assert(t == row_time(from, i) && i < n);
            }
            assert(ts == row_time(from, m as int));
        }
        if cells.len() == 0 {
            assert(rows == before);
            assert forall|v: int| 0 <= v < columns.len() implies #[trigger] left[v]
                == kept_before[v] by {
                assert(!columns[v].contains_key(ts));
                assert(left[v] =~= kept_before[v]);
            }
            assert(left =~= kept_before);
        } else {
            let entries = row_entries((ts, cells));
            assert(rows == before.push((ts, cells)));
            assert(rows[rows.len() - 1] == (ts, cells));
            let texts = row_texts(rows);
            assert(texts.drop_last() =~= row_texts(before));
            assert(texts.last() == crate::json::object_text(entries));
            lemma_row(columns, ts);
            assert(crate::divergence::input::minute(ts) == ts) by {
                crate::grid::slot_start_is_on_the_grid(ts as nat, STEP as nat);
            }
            let added = crate::divergence::input::with_row(kept_before, ts, entries);
            assert forall|v: int| 0 <= v < columns.len() implies #[trigger] left[v]
                == added[v] by {
                let p = crate::divergence::input::price_in(
                    entries,
                    crate::venue::minute_venues()[v],
                );
                if columns[v].contains_key(ts) && is_finite(columns[v][ts]) {
                    assert(p == Some(columns[v][ts]));
                } else {
                    assert(p is None);
                }
                assert(left[v] =~= added[v]);
            }
            assert(left =~= added);
        }
    }
}

/// A row of prices can be read.
pub proof fn price_rows_are_shallow(row: (u64, Seq<(usize, Num)>))
    ensures
        crate::json::is_shallow(row_entries(row)),
{
    crate::ndjson::rows_of_shallow_cells(row.0, prices_json(row.1));
}

/// The objects that a log holds of some slots.
pub open spec fn row_objects(rows: Seq<(u64, Seq<(usize, Num)>)>) -> Seq<Seq<(Seq<char>, Json)>> {
    rows.map_values(|row: (u64, Seq<(usize, Num)>)| row_entries(row))
}

/// The log of a window that starts on the grid, whose lines are each a single
/// one that reads back as its row, comes apart into those lines, and they load
/// as the finite prices of the slots of that window; where there is no such
/// price, there is nothing to load.
pub proof fn written_prices_load(columns: Seq<Map<u64, Num>>, from: u64, to: u64)
    requires
        columns.len() == crate::venue::minute_venues().len(),
        from % STEP == 0,
        from <= to <= u64::MAX - STEP,
        forall|i: int|
            0 <= i < crate::grid::held_rows(
                columns,
                from,
                crate::divergence::analysis::window_slots(from, to),
                STEP,
            ).len() ==> is_good_line(
                #[trigger] crate::grid::held_rows(
                    columns,
                    from,
                    crate::divergence::analysis::window_slots(from, to),
                    STEP,
                )[i],
            ),
    ensures
        ({
            let n = crate::divergence::analysis::window_slots(from, to);
            let left = columns.map_values(|c: Map<u64, Num>| kept(c, from, n));
            let rows = crate::grid::held_rows(columns, from, n, STEP);
            let log = crate::ndjson::broken(crate::ndjson::written(row_objects(rows)));
            log.rest.len() == 0 && crate::divergence::input::loaded(log.ended) == if crate::grid::in_use(left) == 0 {
                Err::<Seq<Map<u64, Num>>, InputFault>(InputFault::NoRows)
            } else {
                Ok::<Seq<Map<u64, Num>>, InputFault>(left)
            }
        }),
{
    let n = crate::divergence::analysis::window_slots(from, to);
    if n > 0 {
        crate::grid::slots_lie_in_the_window(from as nat, to as nat, STEP as nat, (n - 1) as nat);
        assert(from + n * STEP <= u64::MAX);
    }
    let rows = crate::grid::held_rows(columns, from, n, STEP);
    assert forall|i: int| 0 <= i < rows.len() implies crate::ndjson::reads_back(
        row_entries(#[trigger] rows[i]),
    ) by {
        assert(is_good_line(rows[i]));
    }
    lemma_reads_back(columns, from, n);
    let objects = row_objects(rows);
    assert forall|i: int| 0 <= i < objects.len() implies crate::ndjson::is_one_line(
        #[trigger] objects[i],
    ) by {
        assert(is_good_line(rows[i]));
    }
    crate::ndjson::each_object_is_a_line(Seq::empty(), objects);
    assert(Seq::<char>::empty() + crate::ndjson::written(objects) =~= crate::ndjson::written(
        objects,
    ));
    assert(Seq::<Seq<char>>::empty() + crate::ndjson::object_texts(objects) =~= row_texts(rows));
}

/// The prices that load from the log of a window, all of them finite, give the
/// same analysis of that window as the prices that were written.
pub proof fn loaded_prices_give_the_same_analysis(
    columns: Seq<Map<u64, Num>>,
    from: u64,
    to: u64,
    figures: Seq<SlotFigures>,
)
    requires
        from <= to <= u64::MAX - STEP,
        forall|v: int, ts: u64|
            0 <= v < columns.len() && (#[trigger] columns[v]).contains_key(ts)
                && #[trigger] is_written(
                from,
                crate::divergence::analysis::window_slots(from, to),
                ts,
            ) ==> is_finite(columns[v][ts]),
    ensures
        ({
            let n = crate::divergence::analysis::window_slots(from, to);
            let left = columns.map_values(|c: Map<u64, Num>| kept(c, from, n));
            crate::divergence::analysis::analysis_of(left, from, to, figures)
                == crate::divergence::analysis::analysis_of(columns, from, to, figures)
        }),
{
    let n = crate::divergence::analysis::window_slots(from, to);
    let left = columns.map_values(|c: Map<u64, Num>| kept(c, from, n));
    if n > 0 {
        crate::grid::slots_lie_in_the_window(from as nat, to as nat, STEP as nat, (n - 1) as nat);
    }
    assert(from + n * STEP <= u64::MAX);
    assert forall|v: int, i: int|
        0 <= v < left.len() && 0 <= i < n implies crate::grid::held(
        #[trigger] left[v],
        #[trigger] crate::divergence::analysis::slot_ts(from, i),
    ) == crate::grid::held(columns[v], crate::divergence::analysis::slot_ts(from, i)) by {
        let ts = crate::divergence::analysis::slot_ts(from, i);
        assert(from + i * STEP <= from + n * STEP);
        assert(ts == row_time(from, i));
        assert(is_written(from, n, ts));
        assert(left[v] == kept(columns[v], from, n));
    }
    crate::divergence::laws::analysis_is_local(left, columns, from, to, figures);
}

} // verus!
