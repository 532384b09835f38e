//! Slots, columns and what is made of fetched candles.

use dot_price::backfill::{align, candles_note, failure_note, start_note, written_note};
use dot_price::grid::{snap_to, Grid};
use dot_price::venue::{with_minutes, Venue};

#[test]
fn slots() {
    assert_eq!(snap_to(0, 60), 0);
    assert_eq!(snap_to(59, 60), 0);
    assert_eq!(snap_to(60, 60), 60);
    assert_eq!(snap_to(1_779_874_404, 900), 1_779_874_200);
    assert_eq!(snap_to(u64::MAX, 1), u64::MAX);
    for ts in 0..2_000u64 {
        let slot = snap_to(ts, 900);
        assert!(slot % 900 == 0 && slot <= ts && ts < slot + 900);
        assert!(slot <= snap_to(ts + 1, 900));
    }
    assert_eq!(dot_price::divergence::analysis::snap(125), 120);
    assert_eq!(dot_price::history::rolling::snap(1_799), 900);
}

#[test]
fn a_grid_holds_what_is_put() {
    let mut grid: Grid<u32> = Grid::new(3);
    assert_eq!(grid.span(), None);
    assert_eq!(grid.columns_in_use(), 0);
    grid.put(0, 120, 1);
    grid.put(2, 60, 2);
    grid.put(2, 120, 3);
    grid.put(2, 120, 4);
    assert_eq!(grid.cell(2, 120), Some(4));
    assert_eq!(grid.cell(1, 120), None);
    assert_eq!(grid.cells(120), vec![(0, 1), (2, 4)]);
    assert_eq!(grid.cells(60), vec![(2, 2)]);
    assert_eq!(grid.cells(61), vec![]);
    assert_eq!(grid.column_span(2), Some((60, 120)));
    assert_eq!(grid.column_span(1), None);
    assert_eq!(grid.column_len(2), 2);
    assert_eq!(grid.span(), Some((60, 120)));
    assert_eq!(grid.columns_in_use(), 2);
}

#[test]
fn rows_without_a_value_are_left_out() {
    let mut grid: Grid<u32> = Grid::new(2);
    grid.put(0, 60, 1);
    grid.put(1, 180, 2);
    grid.put(0, 180, 3);
    grid.put(0, 240, 4);
    grid.put(0, 61, 5);
    let rows: Vec<(u64, Vec<(usize, u32)>)> =
        grid.rows(0, 240, 60).into_iter().map(|r| (r.ts, r.cells)).collect();
    assert_eq!(rows, vec![(60, vec![(0, 1)]), (180, vec![(0, 3), (1, 2)])]);
    assert!(grid.row_at(0).is_none());
    let row = grid.row_at(180).unwrap();
    assert_eq!((row.ts, row.cells), (180, vec![(0, 3), (1, 2)]));
    assert_eq!(grid.rows(240, 240, 60).len(), 0);
    assert_eq!(grid.rows(300, 240, 60).len(), 0);
}

#[test]
fn fetched_candles_are_aligned() {
    let venues = vec![Venue::Binance, Venue::Okx, Venue::Coinbase, Venue::Bybit];
    let fetched = vec![
        Ok(vec![(120, 7), (60, 5), (60, 6)]),
        Ok(vec![]),
        Err("boom".to_string()),
        Ok(vec![(60, 1)]),
    ];
    let b = align(&venues, fetched);
    assert_eq!(b.grid.cell(0, 60), Some(6));
    assert_eq!(b.grid.cell(0, 120), Some(7));
    assert_eq!(b.grid.cells(60), vec![(0, 6), (3, 1)]);
    assert_eq!(
        b.errors,
        vec![
            (Venue::Okx, "no candles returned".to_string()),
            (Venue::Coinbase, "boom".to_string())
        ]
    );
    assert_eq!(
        candles_note(&b.grid, 0, Venue::Binance),
        Some("Binance: 2 candles (60..120)".to_string())
    );
    assert_eq!(candles_note(&b.grid, 1, Venue::Okx), None);
    assert_eq!(
        failure_note(Venue::Coinbase, "boom"),
        "Coinbase: FAILED — boom"
    );
}

#[test]
fn notes() {
    assert_eq!(written_note(12, "a.ndjson"), "wrote 12 aligned rows to a.ndjson");
    assert_eq!(
        start_note("1m", 60, 240, 60),
        "backfilling 1m candles from 60 to 240 (3 slots)"
    );
    assert_eq!(
        start_note("15m", 900, 900, 900),
        "backfilling 15m candles from 900 to 900 (0 slots)"
    );
    assert_eq!(with_minutes()[0].name(), "Binance");
}
