//! The day that ends with a slot.

use dot_price::grid::Grid;
use dot_price::history::rolling::{vwap_row, Candle, Ring, Walk, STEP, VWAP_WINDOW};
use dot_price::ndjson::VwapSample;
use dot_price::number::Num;
use serde_json::Value;

fn num(x: f64) -> Num {
    Num { bits: x.to_bits() }
}

fn candle(close: f64, volume: f64) -> Candle {
    Candle { close: num(close), quote_volume: num(volume) }
}

#[test]
fn a_ring_gives_back_what_leaves() {
    let mut ring = Ring::new();
    for i in 0..96 {
        let entering = if i % 2 == 0 { Some(candle(i as f64, 1.0)) } else { None };
        assert_eq!(ring.slide(entering), None);
    }
    for i in 0..96 {
        let left = ring.slide(None);
        assert_eq!(left, if i % 2 == 0 { Some(candle(i as f64, 1.0)) } else { None });
    }
    assert_eq!(ring.slide(Some(candle(1.0, 1.0))), None);
}

#[test]
fn a_walk_over_a_window() {
    let mut grid: Grid<Candle> = Grid::new(7);
    for i in 0..300u64 {
        if i % 3 != 1 {
            grid.put(2, i * STEP, candle(i as f64, 2.0));
        }
    }
    let from = 10 * STEP;
    let mut walk = Walk::new(&grid, from, 300 * STEP);
    let mut held = 0i64;
    for i in 0..290u64 {
        let m = walk.step(&grid).unwrap();
        let ts = from + i * STEP;
        assert_eq!(m.ts, ts);
        assert_eq!(m.entering.len(), 7);
        assert_eq!(m.entering[2], grid.cell(2, ts));
        assert_eq!(m.entering[0], None);
        let gone = if i < VWAP_WINDOW as u64 { None } else { grid.cell(2, ts - 96 * STEP) };
        assert_eq!(m.leaving[2], gone);
        held += m.entering[2].is_some() as i64 - m.leaving[2].is_some() as i64;
        let day = (0..96u64)
            .filter(|k| *k <= i && grid.cell(2, ts - k * STEP).is_some())
            .count();
        assert_eq!(held, day as i64);
    }
    assert!(walk.step(&grid).is_none());
    assert!(walk.step(&grid).is_none());
}

fn samples() -> Vec<VwapSample> {
    (0..7)
        .map(|i| VwapSample { vwap: Value::from(i as f64), quote_volume: Value::from(10 + i) })
        .collect()
}

#[test]
fn only_what_was_traded_is_written() {
    let volumes: Vec<Num> =
        [0.0, 1.0, -1.0, f64::NAN, 5e-324, -0.0, f64::INFINITY].into_iter().map(num).collect();
    assert_eq!(
        vwap_row(900, &volumes, samples()),
        Some(
            "{\"ts\":900,\"OKX\":{\"vwap\":1.0,\"volume\":11},\"Bybit\":{\"vwap\":4.0,\"volume\":14},\
             \"Crypto.com\":{\"vwap\":6.0,\"volume\":16}}\n"
                .to_string()
        )
    );
    let nothing = vec![num(0.0); 7];
    assert_eq!(vwap_row(900, &nothing, samples()), None);
}

#[test]
fn a_gap_weighs_nothing() {
    let mut grid: Grid<Candle> = Grid::new(1);
    grid.put(0, 0, candle(2.0, 10.0));
    for i in 2..=97u64 {
        grid.put(0, i * STEP, candle(4.0, 10.0));
    }
    let mut walk = Walk::new(&grid, 0, 99 * STEP);
    let (mut volume, mut value) = (0.0f64, 0.0f64);
    while let Some(m) = walk.step(&grid) {
        if let Some(c) = m.leaving[0] {
            let (p, q) = (f64::from_bits(c.close.bits), f64::from_bits(c.quote_volume.bits));
            volume -= q;
            value -= p * q;
        }
        if let Some(c) = m.entering[0] {
            let (p, q) = (f64::from_bits(c.close.bits), f64::from_bits(c.quote_volume.bits));
            volume += q;
            value += p * q;
        }
    }
    assert_eq!(value / volume, 4.0);
    assert_eq!(volume, 950.0);
}
