//! Progress and retries.

use dot_price::progress::{
    draw_progress_plain, draw_progress_tty, next_drawing, progress_bar, Prog,
};
use dot_price::retry::Retry;
use dot_price::venue::Venue;

#[test]
fn bars() {
    assert_eq!(progress_bar(0), format!("[{}]", "-".repeat(30)));
    assert_eq!(progress_bar(1000), format!("[{}]", "#".repeat(30)));
    assert_eq!(progress_bar(5000), progress_bar(1000));
    for permille in 0..=1000u64 {
        let filled = permille as usize * 30 / 1000;
        assert_eq!(
            progress_bar(permille),
            format!("[{}{}]", "#".repeat(filled), "-".repeat(30 - filled))
        );
    }
}

#[test]
fn what_is_recorded() {
    let mut p = Prog::new();
    assert_eq!(p, Prog { permille: 0, candles: 0, failed: false });
    p.set_frac(250);
    p.add_candles(100);
    p.add_candles(5);
    assert_eq!(p, Prog { permille: 250, candles: 105, failed: false });
    p.set_frac(4000);
    assert_eq!(p.permille, 1000);
    p.set_frac(3);
    p.fail();
    assert_eq!(p, Prog { permille: 3, candles: 105, failed: true });
    p.finish();
    assert_eq!(p.permille, 1000);
    p.add_candles(u64::MAX);
    assert_eq!(p.candles, 104);
}

#[test]
fn a_display_is_drawn_over_the_last() {
    let rows = vec![
        (Venue::Binance, Prog { permille: 333, candles: 12, failed: false }),
        (Venue::CryptoCom, Prog { permille: 1000, candles: 7, failed: true }),
    ];
    let mut first = true;
    let body = format!(
        "Binance     {}   33.3%  12 candles\x1b[K\nCrypto.com  {}  FAILED  7 candles\x1b[K\n",
        progress_bar(333),
        progress_bar(1000)
    );
    assert_eq!(draw_progress_tty(&rows, &mut first), body);
    assert!(!first);
    assert_eq!(draw_progress_tty(&rows, &mut first), format!("\x1b[2A{body}"));
    assert!(!first);
}

#[test]
fn percentages_are_those_of_floating_point() {
    for permille in 0..=1010u64 {
        let rows = vec![(Venue::Okx, Prog { permille, candles: 0, failed: false })];
        let mut first = true;
        let status = format!("{:5.1}%", permille.min(1000) as f64 / 10.0);
        assert_eq!(
            draw_progress_tty(&rows, &mut first),
            format!("{:<11} {} {status:>7}  0 candles\x1b[K\n", "OKX", progress_bar(permille))
        );
    }
}

#[test]
fn a_line_for_a_log() {
    let rows = vec![
        (Venue::Binance, Prog { permille: 333, candles: 0, failed: false }),
        (Venue::Okx, Prog { permille: 0, candles: 0, failed: true }),
        (Venue::Bybit, Prog { permille: 1000, candles: 0, failed: false }),
    ];
    let percents = vec!["33".to_string(), "0".to_string(), "100".to_string()];
    assert_eq!(
        draw_progress_plain(&rows, &percents),
        "progress: Binance 33% | OKX FAILED | Bybit 100%"
    );
    assert_eq!(draw_progress_plain(&vec![], &vec![]), "progress: ");
}

#[test]
fn how_often_it_is_drawn() {
    assert_eq!(next_drawing(true, false), Some(500));
    assert_eq!(next_drawing(false, false), Some(30_000));
    assert_eq!(next_drawing(true, true), None);
    assert_eq!(next_drawing(false, true), None);
}

#[test]
fn retries() {
    let mut r = Retry::new();
    assert_eq!(r.fail(), Some(500));
    assert_eq!(r.fail(), Some(1000));
    assert_eq!(r.fail(), Some(2000));
    assert_eq!(r.fail(), None);
}
