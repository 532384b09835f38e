//! The live poller.

use dot_price::live::args::{parse_args, Command, Config};
use dot_price::live::round::{
    collect, exit_code, heading, log_paths, price_foot, price_table, spread, vwap_foot, vwap_table,
    DayTexts,
};
use dot_price::live::sources::{pair, price_url, reliability, vwap_url};
use dot_price::live::tickers::{
    read_binance_day, read_first_day, read_first_price, read_kraken_day, read_kraken_price,
    read_price, read_price_and_base, read_volumes, vwap_from, DayFigures, Figure, KrakenPair,
    Ticker, TickerError,
};
use dot_price::number::Num;
use dot_price::paging::Cell;
use dot_price::venue::{live, Venue};

fn num(x: f64) -> Num {
    Num { bits: x.to_bits() }
}

fn cell(text: &str) -> Cell {
    Cell { text: text.to_string(), number: text.trim().parse::<f64>().ok().map(num) }
}

fn cells(texts: &[&str]) -> Vec<Cell> {
    texts.iter().map(|t| cell(t)).collect()
}

fn words<T>(r: Result<T, TickerError>) -> &'static str {
    match r {
        Err(e) => e.message().unwrap(),
        Ok(_) => panic!("accepted"),
    }
}

fn bad_number<T>(r: Result<T, TickerError>) -> String {
    match r {
        Err(TickerError::BadNumber(text)) => text,
        _ => panic!("no bad number"),
    }
}

#[test]
fn sources() {
    let table: Vec<(&str, &str, &str)> =
        live().into_iter().map(|v| (v.name(), pair(v), reliability(v))).collect();
    assert_eq!(
        table,
        vec![
            ("Binance", "DOT/USDT", "Very High"),
            ("OKX", "DOT/USDT", "High"),
            ("Coinbase", "DOT/USD", "Very High"),
            ("Kraken", "DOT/USD", "Very High"),
            ("Bybit", "DOT/USDT", "High"),
            ("KuCoin", "DOT/USDT", "Medium-High"),
            ("Crypto.com", "DOT/USD", "High"),
            ("Gate.io", "DOT/USDT", "Medium-High"),
        ]
    );
    assert_eq!(price_url(Venue::Coinbase), "https://api.coinbase.com/v2/prices/DOT-USD/spot");
    assert_eq!(
        vwap_url(Venue::Coinbase),
        "https://api.exchange.coinbase.com/products/DOT-USD/stats"
    );
    assert_eq!(vwap_url(Venue::Okx), price_url(Venue::Okx));
    assert_eq!(vwap_url(Venue::Gate), price_url(Venue::Gate));
}

#[test]
fn single_prices() {
    assert_eq!(read_price(&cell(" 1.259 ")).ok(), Some(num(1.259)));
    assert_eq!(bad_number(read_price(&cell("n/a"))), "n/a");
    assert!(TickerError::BadNumber("x".to_string()).message().is_none());
}

fn ticker(last: &str, base: &str, quote: &str) -> Ticker {
    Ticker { last: cell(last), base: cell(base), quote: cell(quote) }
}

#[test]
fn prices_in_lists() {
    let list = vec![ticker("1.5", "x", "x"), ticker("9", "1", "1")];
    assert_eq!(read_first_price(Venue::Okx, &list).ok(), Some(num(1.5)));
    assert_eq!(words(read_first_price(Venue::Okx, &vec![])), "empty data array");
    assert_eq!(words(read_first_price(Venue::CryptoCom, &vec![])), "empty data array");
    assert_eq!(words(read_first_price(Venue::Bybit, &vec![])), "empty list");
    assert_eq!(words(read_first_price(Venue::Gate, &vec![])), "empty ticker array");
}

#[test]
fn days_in_lists() {
    let list = vec![ticker("x", "4", "5"), ticker("9", "1", "1")];
    assert_eq!(
        read_first_day(Venue::Bybit, &list).ok(),
        Some(DayFigures {
            vwap: Figure::Quotient(num(5.0), num(4.0)),
            quote_volume: Figure::Stated(num(5.0))
        })
    );
    assert_eq!(words(read_first_day(Venue::Bybit, &vec![])), "empty list");
    assert_eq!(
        words(read_first_day(Venue::Gate, &vec![ticker("1", "0", "5")])),
        "zero base volume; cannot compute VWAP"
    );
    assert_eq!(bad_number(read_volumes(&cell("b"), &cell("q"))), "b");
    assert_eq!(bad_number(read_volumes(&cell("0"), &cell("q"))), "q");
}

#[test]
fn weighted_prices() {
    assert_eq!(
        vwap_from(num(2.0), num(3.0)).ok(),
        Some(Figure::Quotient(num(3.0), num(2.0)))
    );
    assert!(vwap_from(num(f64::NAN), num(3.0)).is_ok());
    for base in [0.0, -0.0, -1.0, f64::NEG_INFINITY] {
        assert_eq!(words(vwap_from(num(base), num(3.0))), "zero base volume; cannot compute VWAP");
    }
}

#[test]
fn stated_days() {
    assert_eq!(
        read_binance_day(&cell("1.5"), &cell("10")).ok(),
        Some(DayFigures {
            vwap: Figure::Stated(num(1.5)),
            quote_volume: Figure::Stated(num(10.0))
        })
    );
    assert_eq!(bad_number(read_binance_day(&cell("a"), &cell("b"))), "a");
    assert_eq!(
        read_price_and_base(&cell("1.5"), &cell("10")).ok(),
        Some(DayFigures {
            vwap: Figure::Stated(num(1.5)),
            quote_volume: Figure::Product(num(1.5), num(10.0))
        })
    );
    assert_eq!(bad_number(read_price_and_base(&cell("1"), &cell("b"))), "b");
}

#[test]
fn kraken_answers() {
    let pair = |c: &[&str], v: &[&str], p: &[&str]| {
        Some(KrakenPair { close: cells(c), volume: cells(v), vwap: cells(p) })
    };
    assert_eq!(words(read_kraken_price(&None)), "empty result map");
    assert_eq!(words(read_kraken_price(&pair(&[], &[], &[]))), "missing close price");
    assert_eq!(read_kraken_price(&pair(&["1.5", "9"], &[], &[])).ok(), Some(num(1.5)));
    assert_eq!(words(read_kraken_day(&None)), "empty result map");
    assert_eq!(words(read_kraken_day(&pair(&[], &["1", "2"], &["1"]))), "missing 24h VWAP");
    assert_eq!(words(read_kraken_day(&pair(&[], &["1"], &["1", "x"]))), "missing 24h volume");
    assert_eq!(
        read_kraken_day(&pair(&[], &["1", "20"], &["1", "1.25"])).ok(),
        Some(DayFigures {
            vwap: Figure::Stated(num(1.25)),
            quote_volume: Figure::Product(num(1.25), num(20.0))
        })
    );
    assert_eq!(bad_number(read_kraken_day(&pair(&[], &["1", "y"], &["1", "x"]))), "x");
}

#[test]
fn rounds() {
    let venues = vec![Venue::Binance, Venue::Okx, Venue::Coinbase];
    let r = collect(&venues, vec![Ok(1), Err("a".to_string()), Ok(3)]);
    assert_eq!(r.answers, vec![(Venue::Binance, 1), (Venue::Coinbase, 3)]);
    assert_eq!(r.errors, vec![(Venue::Okx, "a".to_string())]);
    let none = collect(&venues, vec![Err::<u8, String>("x".to_string()); 3]);
    assert_eq!((none.answers.len(), none.errors.len()), (0, 3));
    assert_eq!(exit_code(none.answers.len()), 1);
    assert_eq!(exit_code(1), 0);
    assert_eq!(exit_code(8), 0);
}

#[test]
fn spreads() {
    assert!(spread(&vec![]).is_none());
    let s = spread(&vec![num(1.259), num(1.257), num(1.26)]).unwrap();
    assert_eq!((s.low, s.high, s.measurable), (num(1.257), num(1.26), true));
    assert!(!spread(&vec![num(0.0), num(1.0)]).unwrap().measurable);
    assert!(!spread(&vec![num(-f64::NAN), num(1.0)]).unwrap().measurable);
}

#[test]
fn the_table_of_prices() {
    let rows = vec![
        (Venue::Binance, Ok("1.2590".to_string())),
        (Venue::Okx, Ok("1.2590".to_string())),
        (Venue::KuCoin, Err("timed out".to_string())),
    ];
    assert_eq!(
        price_table(&rows),
        "Exchange     Pair             Price (USD)  Reliability\n\
         --------------------------------------------------------\n\
         Binance      DOT/USDT              1.2590  Very High\n\
         OKX          DOT/USDT              1.2590  High\n\
         KuCoin       DOT/USDT                   —  Medium-High (error: timed out)\n"
    );
    assert_eq!(
        price_foot(8, "1.2570", "1.2600", "23.9"),
        "--------------------------------------------------------\n\
         8 sources ok  |  min 1.2570  max 1.2600  spread 23.9 bps\n"
    );
}

#[test]
fn the_table_of_what_was_traded() {
    let rows = vec![
        (
            Venue::Binance,
            Ok(DayTexts { vwap: "1.2590".to_string(), quote_volume: "1234567".to_string() }),
        ),
        (Venue::CryptoCom, Err("empty data array".to_string())),
    ];
    let expected = format!(
        "{:<12} {:>10}  {:>18}\n{}\n{:<12} {:>10}  {:>18}\n{:<12} {:>10}  {:>18}  (error: {})\n",
        "Exchange",
        "24h VWAP",
        "24h quote vol",
        "-".repeat(44),
        "Binance",
        "1.2590",
        "1234567",
        "Crypto.com",
        "—",
        "—",
        "empty data array"
    );
    assert_eq!(vwap_table(&rows), expected);
    assert_eq!(
        vwap_foot(1, "1234567"),
        format!("{}\n1 sources ok  |  total 24h quote vol 1234567\n", "-".repeat(44))
    );
}

fn config(args: &[&str]) -> Config {
    match parse_args(&args.iter().map(|a| a.to_string()).collect()) {
        Ok(Command::Run(cfg)) => cfg,
        _ => panic!("not a run"),
    }
}

#[test]
fn log_files() {
    let p = log_paths(&config(&[]), 1_779_874_404);
    assert_eq!(p.results.as_deref(), Some("results_1779874404.ndjson"));
    assert_eq!(p.errors.as_deref(), Some("error_1779874404.ndjson"));
    assert_eq!(p.vwap.as_deref(), Some("vwap_1779874404.ndjson"));
    let p = log_paths(&config(&["-o", "r", "--vwap-results", "v"]), 5);
    assert_eq!(p.results.as_deref(), Some("r"));
    assert_eq!(p.errors.as_deref(), Some("error_5.ndjson"));
    assert_eq!(p.vwap.as_deref(), Some("v"));
    let p = log_paths(&config(&["--no-log"]), 5);
    assert!(p.results.is_none() && p.errors.is_none() && p.vwap.is_none());
}

#[test]
fn headings() {
    assert_eq!(heading(17, "spot"), "\n# unix 17 (spot)\n");
    assert_eq!(heading(18, "vwap"), "\n# unix 18 (vwap)\n");
}
