//! The divergence analysis.

use dot_price::divergence::analysis::{
    analyze, band, band_label, read_slot, Analysis, Episode, SlotFigures,
};
use dot_price::divergence::input::{add_line, load_input, InputError, LineError};
use dot_price::divergence::output::{closes_line, occurrence_line};
use dot_price::divergence::ranking::{list_band, list_shown};
use dot_price::divergence::summary::{summary, PeakTexts, SummaryTexts};
use dot_price::divergence::window::{fetch_window, input_window, Window};
use dot_price::grid::Grid;
use dot_price::number::Num;
use dot_price::venue::Venue;
use serde_json::Value;

fn num(x: f64) -> Num {
    Num { bits: x.to_bits() }
}

fn float(n: Num) -> f64 {
    f64::from_bits(n.bits)
}

fn figures(cells: &[(usize, Num)]) -> SlotFigures {
    let prices: Vec<f64> = cells.iter().map(|c| float(c.1)).collect();
    let mean = prices.iter().sum::<f64>() / prices.len() as f64;
    SlotFigures {
        mean: num(mean),
        deviations: prices.iter().map(|p| num((p - mean).abs())).collect(),
        percents: prices.iter().map(|p| num((p - mean).abs() / mean * 100.0)).collect(),
    }
}

fn analysis(grid: &Grid<Num>, from: u64, to: u64) -> Analysis {
    let mut all = Vec::new();
    let mut ts = from;
    while ts < to {
        all.push(figures(&grid.cells(ts)));
        ts += 60;
    }
    analyze(grid, from, to, &all)
}

/// Two exchanges, the second of which is off by a percentage of the first.
fn pair_grid(offsets: &[Option<f64>]) -> Grid<Num> {
    let mut grid: Grid<Num> = Grid::new(6);
    for (i, offset) in offsets.iter().enumerate() {
        grid.put(0, 60 * i as u64, num(100.0));
        if let Some(x) = offset {
            grid.put(4, 60 * i as u64, num(100.0 + x));
        }
    }
    grid
}

#[test]
fn bands() {
    for (percent, b) in [
        (0.0, 0),
        (0.49999, 0),
        (0.5, 1),
        (0.99, 1),
        (1.0, 2),
        (4.999, 2),
        (5.0, 3),
        (1e9, 3),
        (f64::INFINITY, 3),
        (f64::NAN, 3),
    ] {
        assert_eq!(band(num(percent)), b, "{percent}");
    }
    assert_eq!([band_label(0), band_label(1), band_label(2), band_label(3)], [
        "<0.5%", "0.5-1%", "1-5%", ">=5%"
    ]);
}

#[test]
fn the_last_of_the_widest_counts() {
    let cells = vec![(0, num(1.0)), (2, num(3.0)), (5, num(2.0))];
    let r = read_slot(&cells, &figures(&cells)).unwrap();
    assert_eq!((r.venue, float(r.price), float(r.mean), r.venues), (2, 3.0, 2.0, 3));
    assert_eq!(float(r.percent), 50.0);
    assert!(read_slot(&vec![(0, num(1.0))], &figures(&[])).is_none());
    assert!(read_slot(&vec![], &figures(&[])).is_none());
}

#[test]
fn an_analysis() {
    // Divergence is half the offset, in percent of a mean near 100.
    let grid = pair_grid(&[
        Some(0.1),
        Some(1.5),
        Some(1.75),
        Some(1.75),
        Some(4.0),
        None,
        Some(4.0),
        Some(20.0),
        Some(0.0),
        Some(1.5),
    ]);
    let a = analysis(&grid, 0, 600);
    assert_eq!(a.total_slots, 10);
    assert_eq!(a.no_data_slots, 1);
    assert_eq!(a.band_slots, vec![2, 4, 2, 1]);
    assert_eq!(
        a.coverage,
        vec![
            (Venue::Binance, 10),
            (Venue::Okx, 0),
            (Venue::Coinbase, 0),
            (Venue::Bybit, 0),
            (Venue::KuCoin, 9),
            (Venue::CryptoCom, 0)
        ]
    );
    let spans: Vec<(usize, u64, u64, u64)> =
        a.episodes.iter().map(|e| (e.band, e.start_ts, e.end_ts, e.peak_ts)).collect();
    assert_eq!(
        spans,
        vec![
            (1, 60, 240, 120),
            (2, 240, 300, 240),
            (2, 360, 420, 360),
            (3, 420, 480, 420),
            (1, 540, 600, 540)
        ]
    );
    let e = a.episodes[0];
    assert_eq!(e.peak_venue, 4);
    assert_eq!(float(e.peak_price), 101.75);
    assert_eq!(e.venues_at_peak, 2);
    assert_eq!(float(e.peak_pct), 0.875 / 100.875 * 100.0);
    assert_eq!(a.band_slots.iter().sum::<u64>() + a.no_data_slots, 10);
}

#[test]
fn an_analysis_of_part_of_a_step() {
    let grid = pair_grid(&[Some(0.1), Some(9.0), Some(9.0)]);
    let a = analysis(&grid, 0, 61);
    assert_eq!(a.total_slots, 1);
    assert_eq!(a.band_slots, vec![1, 0, 1, 0]);
    let a = analysis(&grid, 60, 60);
    assert_eq!((a.total_slots, a.episodes.len()), (0, 0));
}

#[test]
fn windows() {
    assert_eq!(input_window(None, None, 120, 300), Window { from: 120, to: 360 });
    assert_eq!(input_window(Some(125), Some(299), 0, 0), Window { from: 120, to: 240 });
    assert_eq!(fetch_window(None, None, 604_859), Window { from: 0, to: 604_800 });
    assert_eq!(fetch_window(None, None, 1_000), Window { from: 0, to: 960 });
    assert_eq!(fetch_window(Some(61), Some(121), 9), Window { from: 60, to: 120 });
    assert_eq!(Window { from: 60, to: 120 }.refusal(), None);
    assert_eq!(
        Window { from: 120, to: 60 }.refusal(),
        Some("empty window: to (60) <= from (120)".to_string())
    );
    assert!(Window { from: 60, to: 60 }.refusal().is_some());
}

fn lines(text: &str) -> Vec<String> {
    text.lines().map(|l| l.to_string()).collect()
}

#[test]
fn loading_a_log() {
    let text = "{\"ts\":125,\"Binance\":1.5,\"Kraken\":9.0,\"KuCoin\":2}\n\
                \n   \t\n\
                {\"ts\":120,\"OKX\":-3,\"Binance\":1.75,\"Bybit\":\"x\",\"Crypto.com\":null}\n\
                {\"Gate.io\":1.0,\"ts\":180}\n";
    let grid = match load_input(&lines(text)) {
        Ok(grid) => grid,
        Err(_) => panic!("refused"),
    };
    assert_eq!(
        grid.cells(120),
        vec![(0, num(1.75)), (1, num(-3.0)), (4, num(2.0))]
    );
    assert_eq!(grid.cells(180), vec![]);
    assert_eq!(grid.span(), Some((120, 120)));
    assert_eq!(grid.columns_in_use(), 3);
}

fn refusal(text: &str) -> InputError {
    match load_input(&lines(text)) {
        Ok(_) => panic!("accepted"),
        Err(e) => e,
    }
}

#[test]
fn faulty_logs() {
    let e = refusal("{\"ts\":0,\"OKX\":1}\n\nnot json\n{}");
    assert_eq!(e.message("f"), "parsing f:3");
    assert!(matches!(e, InputError::Line { number: 3, error: LineError::Syntax(_) }));
    assert_eq!(refusal("[1]").message("f"), "parsing f:1");
    assert_eq!(refusal("{\"ts\":0}x").message("f"), "parsing f:1");
    for line in ["{}", "{\"ts\":-1}", "{\"ts\":1.0}", "{\"ts\":\"1\"}", "{\"ts\":null}"] {
        let e = refusal(line);
        assert_eq!(e.message("a/b"), "a/b:1: missing ts", "{line}");
        assert!(matches!(e, InputError::Line { number: 1, error: LineError::NoTime }));
    }
    for text in ["", "\n\n", "{\"ts\":5}", "{\"ts\":5,\"Kraken\":1.0}"] {
        let e = refusal(text);
        assert_eq!(e.message("f"), "f: no rows for any known exchange");
        assert!(matches!(e, InputError::NoRows));
    }
}

#[test]
fn a_faulty_line_adds_nothing() {
    let mut grid: Grid<Num> = Grid::new(6);
    assert!(add_line(&mut grid, "{\"ts\":60,\"OKX\":1.0}").is_ok());
    assert!(add_line(&mut grid, "{\"OKX\":2.0}").is_err());
    assert!(add_line(&mut grid, "{\"ts\":60,\"OKX\":2.0").is_err());
    assert_eq!(grid.cells(60), vec![(1, num(1.0))]);
}

#[test]
fn what_is_written_loads_again() {
    let prices = [
        1.2590000000000001,
        0.1 + 0.2,
        5e-324,
        f64::MAX,
        1e21,
        123456789.0,
        -0.0,
        f64::NAN,
        f64::INFINITY,
        2.0 / 3.0,
    ];
    let mut grid: Grid<Num> = Grid::new(6);
    for (i, p) in prices.iter().enumerate() {
        grid.put(i % 6, 60 * i as u64, num(*p));
        grid.put(5, 60 * i as u64, num(*p + 1.0));
    }
    let mut text = String::new();
    for row in grid.rows(0, 600, 60) {
        let values = row.cells.iter().map(|c| Value::from(float(c.1))).collect();
        text.push_str(&closes_line(&row, values));
    }
    assert_eq!(text.lines().count(), 10);
    let again = match load_input(&lines(&text)) {
        Ok(again) => again,
        Err(e) => panic!("{}", e.message("text")),
    };
    for ts in (0..600).step_by(60) {
        let finite: Vec<(usize, Num)> =
            grid.cells(ts).into_iter().filter(|c| float(c.1).is_finite()).collect();
        assert_eq!(again.cells(ts), finite);
    }
}

#[test]
fn a_reloaded_window_is_analysed_alike() {
    let grid = pair_grid(&[Some(0.123), Some(1.777), Some(7.3), None, Some(11.1)]);
    let mut text = String::new();
    for row in grid.rows(0, 300, 60) {
        let values = row.cells.iter().map(|c| Value::from(float(c.1))).collect();
        text.push_str(&closes_line(&row, values));
    }
    let again = match load_input(&lines(&text)) {
        Ok(again) => again,
        Err(_) => panic!("refused"),
    };
    let span = again.span().unwrap();
    let w = input_window(None, None, span.0, span.1);
    assert_eq!(w, Window { from: 0, to: 300 });
    let a = analysis(&grid, 0, 300);
    let b = analysis(&again, w.from, w.to);
    assert_eq!(a.band_slots, b.band_slots);
    assert_eq!(a.coverage, b.coverage);
    assert_eq!(a.episodes, b.episodes);
    assert_eq!(a.no_data_slots, b.no_data_slots);
}

fn episode(band: usize, start: u64, minutes: u64, peak: f64) -> Episode {
    Episode {
        band,
        start_ts: start,
        end_ts: start + 60 * minutes,
        peak_pct: num(peak),
        peak_ts: start,
        peak_venue: 5,
        peak_price: num(1.5),
        mean_at_peak: num(1.25),
        venues_at_peak: 6,
    }
}

#[test]
fn an_occurrence() {
    let e = episode(2, 1_704_067_200, 61, 2.5);
    assert_eq!(
        occurrence_line(&e, Value::from(2.5), Value::from(1.5), Value::from(1.25)),
        "{\"band\":\"1-5%\",\"start_ts\":1704067200,\"end_ts\":1704070860,\
         \"start_utc\":\"2024-01-01T00:00:00Z\",\"end_utc\":\"2024-01-01T01:01:00Z\",\
         \"duration_min\":61,\"peak_pct\":2.5,\"peak_ts\":1704067200,\
         \"peak_utc\":\"2024-01-01T00:00:00Z\",\"peak_venue\":\"Crypto.com\",\"peak_price\":1.5,\
         \"mean_at_peak\":1.25,\"venues_at_peak\":6}\n"
    );
}

#[test]
fn the_largest_peaks_are_listed() {
    let peaks: Vec<f64> = (0..60).map(|i| 0.5 + ((i * 37) % 20) as f64 / 100.0).collect();
    let mut episodes: Vec<Episode> = Vec::new();
    for (i, p) in peaks.iter().enumerate() {
        episodes.push(episode(2, 1_000 * i as u64, 1, 3.0));
        episodes.push(episode(1, 1_000 * i as u64 + 120, 1, *p));
    }
    assert_eq!(list_band(&episodes, 1).len(), 60);
    assert!(list_band(&episodes, 3).is_empty());
    let mut order: Vec<usize> = (0..60).collect();
    order.sort_by(|a, b| peaks[*b].partial_cmp(&peaks[*a]).unwrap());
    order.truncate(50);
    order.sort();
    let expected: Vec<usize> = order.into_iter().map(|i| 2 * i + 1).collect();
    assert_eq!(list_shown(&episodes, 1), expected);
    assert_eq!(list_shown(&episodes, 2), (0..60).map(|i| 2 * i).collect::<Vec<usize>>());
    let few: Vec<Episode> = (0..50).map(|i| episode(1, 60 * i, 1, 0.6)).collect();
    assert_eq!(list_shown(&few, 1), (0..50).collect::<Vec<usize>>());
}

#[test]
fn a_cut_list_is_in_the_order_of_time() {
    let reversed: Vec<Episode> =
        (0..60).map(|i| episode(1, 60 * (60 - i), 1, 0.5 + i as f64 / 1000.0)).collect();
    assert_eq!(list_shown(&reversed, 1), (10..60).rev().collect::<Vec<usize>>());
    assert_eq!(list_shown(&reversed[10..].to_vec(), 1), (0..50).collect::<Vec<usize>>());
    let at_once: Vec<Episode> =
        (0..51).map(|i| episode(1, 60, 1, 0.5 + i as f64 / 1000.0)).collect();
    assert_eq!(list_shown(&at_once, 1), (1..51).rev().collect::<Vec<usize>>());
}

#[test]
fn a_short_table_takes_any_peak() {
    let episodes: Vec<Episode> = (0..50).map(|i| episode(1, 120 * i, 1, f64::NAN)).collect();
    let a = Analysis {
        total_slots: 100,
        no_data_slots: 0,
        band_slots: vec![50, 50, 0, 0],
        coverage: vec![],
        episodes,
    };
    let s = summary("all.ndjson", 0, 6000, &a, &texts(&a));
    assert!(s.contains("episodes 0.5-1%:\n"));
    assert_eq!(s.matches("     NaN ").count(), 50);
}

#[test]
fn only_the_slots_of_the_window_count() {
    let offsets = [Some(9.0), Some(0.1), Some(1.5), None, Some(4.0), Some(20.0)];
    let mut grid = pair_grid(&offsets);
    let a = analysis(&grid, 60, 300);
    for ts in [0, 59, 61, 119, 299, 300, 360, 1_000_000] {
        grid.put(2, ts, num(1e6));
        grid.put(4, ts, num(-7.0));
    }
    let b = analysis(&grid, 60, 300);
    assert_eq!((a.total_slots, a.no_data_slots), (b.total_slots, b.no_data_slots));
    assert_eq!(a.band_slots, b.band_slots);
    assert_eq!(a.coverage, b.coverage);
    assert_eq!(a.episodes, b.episodes);
    grid.put(4, 240, num(100.0));
    assert_ne!(analysis(&grid, 60, 300).episodes, a.episodes);
}

#[test]
fn the_parts_of_a_window_make_up_the_whole() {
    let offsets =
        [Some(0.1), Some(1.5), Some(1.75), Some(1.6), Some(4.0), None, Some(4.0), Some(20.0)];
    let grid = pair_grid(&offsets);
    let whole = analysis(&grid, 0, 480);
    for mid in (0..=480).step_by(60) {
        let (a, b) = (analysis(&grid, 0, mid), analysis(&grid, mid, 480));
        assert_eq!(a.total_slots + b.total_slots, whole.total_slots);
        assert_eq!(a.no_data_slots + b.no_data_slots, whole.no_data_slots);
        for i in 0..4 {
            assert_eq!(a.band_slots[i] + b.band_slots[i], whole.band_slots[i]);
        }
        for i in 0..6 {
            assert_eq!(a.coverage[i].1 + b.coverage[i].1, whole.coverage[i].1);
        }
        let mut episodes = a.episodes;
        for e in b.episodes {
            match episodes.last_mut() {
                Some(last) if last.end_ts == e.start_ts && e.start_ts == mid && last.band == e.band => {
                    let wider = float(e.peak_pct) > float(last.peak_pct);
                    let end_ts = e.end_ts;
                    let start_ts = last.start_ts;
                    if wider {
                        *last = Episode { start_ts, ..e };
                    }
                    last.end_ts = end_ts;
                }
                _ => episodes.push(e),
            }
        }
        assert_eq!(episodes, whole.episodes, "{mid}");
    }
}

fn texts(a: &Analysis) -> SummaryTexts {
    let total = a.band_slots.iter().sum::<u64>().max(1) as f64;
    SummaryTexts {
        coverage: a
            .coverage
            .iter()
            .map(|c| format!("{:.2}", c.1 as f64 / a.total_slots.max(1) as f64 * 100.0))
            .collect(),
        shares: a.band_slots.iter().map(|n| format!("{:.2}", *n as f64 / total * 100.0)).collect(),
        peaks: a
            .episodes
            .iter()
            .map(|e| PeakTexts {
                percent: format!("{:.3}", float(e.peak_pct)),
                price: format!("{:.4}", float(e.peak_price)),
                mean: format!("{:.4}", float(e.mean_at_peak)),
            })
            .collect(),
    }
}

#[test]
fn a_summary() {
    let grid = pair_grid(&[Some(0.1), Some(1.5), Some(4.0), None]);
    let a = analysis(&grid, 0, 240);
    let expected = "
window     : 1970-01-01T00:00:00Z .. 1970-01-01T00:04:00Z (4 slots of 1m)
analyzable : 3 slots (1 with <2 venues, excluded from percentages)

venue coverage:
  Binance     100.00%  (4/4 slots)
  OKX           0.00%  (0/4 slots)
  Coinbase      0.00%  (0/4 slots)
  Bybit         0.00%  (0/4 slots)
  KuCoin       75.00%  (3/4 slots)
  Crypto.com    0.00%  (0/4 slots)

divergence d = max |price - mean| / mean across venues, per 1m slot:
  <0.5%           1 slots   33.33%  1m          
  0.5-1%          1 slots   33.33%  1m            (1 episodes)
  1-5%            1 slots   33.33%  1m            (1 episodes)
  >=5%            0 slots    0.00%  0m            (0 episodes)

episodes 1-5%:
  start (UTC)           duration   peak% venue           price      mean  venues
  1970-01-01T00:02:00Z        1m   1.961 KuCoin       104.0000  102.0000       2

episodes 0.5-1%:
  start (UTC)           duration   peak% venue           price      mean  venues
  1970-01-01T00:01:00Z        1m   0.744 KuCoin       101.5000  100.7500       2

";
    assert_eq!(summary("o.ndjson", 0, 240, &a, &texts(&a)), expected);
}

#[test]
fn a_long_table_is_cut() {
    let episodes: Vec<Episode> =
        (0..51).map(|i| episode(1, 120 * i, 1, if i == 7 { 0.5 } else { 0.75 })).collect();
    let a = Analysis {
        total_slots: 102,
        no_data_slots: 0,
        band_slots: vec![51, 51, 0, 0],
        coverage: vec![],
        episodes,
    };
    let s = summary("all.ndjson", 0, 6120, &a, &texts(&a));
    assert!(s.contains("episodes 0.5-1% (top 50 of 51 by peak; full list in all.ndjson):\n"));
    assert_eq!(s.matches("   0.750 ").count(), 50);
    assert_eq!(s.matches("   0.500 ").count(), 0);
    assert_eq!(
        s.lines().find(|l| l.starts_with("  start")).unwrap(),
        format!(
            "  {:<20} {:>9} {:>7} {:<11} {:>9} {:>9} {:>7}",
            "start (UTC)", "duration", "peak%", "venue", "price", "mean", "venues"
        )
    );
}
