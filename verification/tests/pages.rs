//! Fetching candles page by page.

use dot_price::number::Num;
use dot_price::paging::binance::Binance;
use dot_price::paging::bybit::Bybit;
use dot_price::paging::coinbase::{Coinbase, NumberCell};
use dot_price::paging::cryptocom::{CryptoCom, CryptoRow};
use dot_price::paging::kraken::{read_result, Kraken, KrakenRows};
use dot_price::paging::kucoin::KuCoin;
use dot_price::paging::okx::Okx;
use dot_price::paging::{
    fault_text, read_json_rows, Candle, Cell, Fault, Grain, JsonCell, PageFault, Volume,
};
use dot_price::text::IntError;
use serde_json::Value;

fn num(x: f64) -> Num {
    Num { bits: x.to_bits() }
}

fn cell(text: &str) -> Cell {
    Cell { text: text.to_string(), number: text.trim().parse::<f64>().ok().map(num) }
}

fn rows(rows: &[&[&str]]) -> Vec<Vec<Cell>> {
    rows.iter().map(|r| r.iter().map(|c| cell(c)).collect()).collect()
}

fn closes(candles: &[Candle]) -> Vec<(u64, f64)> {
    candles.iter().map(|c| (c.ts, f64::from_bits(c.close.bits))).collect()
}

fn json_rows(text: &str) -> Vec<Option<Vec<JsonCell>>> {
    let values: Vec<Value> = serde_json::from_str(text).unwrap();
    with_numbers(read_json_rows(&values))
}

fn with_numbers(rows: Vec<Option<Vec<JsonCell>>>) -> Vec<Option<Vec<JsonCell>>> {
    rows.into_iter()
        .map(|row| {
            row.map(|cells| {
                cells
                    .into_iter()
                    .map(|c| JsonCell {
                        number: c.text.trim().parse::<f64>().ok().map(num),
                        ..c
                    })
                    .collect()
            })
        })
        .collect()
}

fn fault<T>(r: Result<T, PageFault>) -> (usize, Fault) {
    match r {
        Err(f) => (f.row, f.fault),
        Ok(_) => panic!("accepted"),
    }
}

#[test]
fn json_cells() {
    let cells = json_rows("[[5, \"1.5\", -1, 2.5, null, \"x\", [], {}, true], 7, []]");
    let first = cells[0].as_ref().unwrap();
    let read: Vec<(Option<u64>, &str, Option<Num>)> =
        first.iter().map(|c| (c.whole, c.text.as_str(), c.number)).collect();
    assert_eq!(read[0], (Some(5), "", None));
    assert_eq!(read[1], (None, "1.5", Some(num(1.5))));
    assert_eq!(read[5], (None, "x", None));
    for i in [2, 3, 4, 6, 7, 8] {
        assert_eq!(read[i], (None, "", None));
    }
    assert!(cells[1].is_none());
    assert_eq!(cells[2].as_ref().unwrap().len(), 0);
}

#[test]
fn binance_pages() {
    let mut b = Binance::new(Grain::Quarter, 900, 4_500_000);
    assert_eq!(
        b.url(),
        "https://data-api.binance.vision/api/v3/klines?symbol=DOTUSDT&interval=15m&startTime=900000&endTime=4500000000&limit=1000"
    );
    let row = "[1800000, \"1\", \"2\", \"0.5\", \" 1.25 \", \"9\", 0, \"77.5\", 1]";
    let page = b.accept(&json_rows(&format!("[{row}]"))).ok().unwrap();
    assert!(page.done);
    assert_eq!((page.counted, page.progress), (1, None));
    assert_eq!(
        page.candles,
        vec![Candle { ts: 1800, close: num(1.25), volume: Volume::Stated(num(77.5)) }]
    );
    assert_eq!(b.start_ms, 900_000);

    let mut full = String::from("[");
    for i in 0..1000u64 {
        if i > 0 {
            full.push(',');
        }
        full.push_str(&format!(
            "[{}, \"1\", \"2\", \"0.5\", \"1.25\", \"9\", 0, \"77.5\"]",
            900_000 * (i + 1)
        ));
    }
    full.push(']');
    let page = b.accept(&json_rows(&full)).ok().unwrap();
    assert!(!page.done);
    assert_eq!(page.candles.len(), 1000);
    assert_eq!(b.start_ms, 900_000 * 1001);
    assert_eq!(page.progress, Some((900_000 * 1000, 4_500_000_000 - 900_000)));

    let mut short = Binance::new(Grain::Quarter, 900, 900_000);
    let page = short.accept(&json_rows(&full)).ok().unwrap();
    assert!(page.done);
    let page = b.accept(&json_rows("[]")).ok().unwrap();
    assert!(page.done && page.candles.is_empty());
}

#[test]
fn binance_faults() {
    let mut b = Binance::new(Grain::Quarter, 0, 4_500_000);
    let good = "[0, \"1\", \"2\", \"0.5\", \"1.25\", \"9\", 0, \"77.5\"]";
    for (row, expected) in [
        ("7", Fault::NoKlineArray),
        ("[]", Fault::Short),
        ("[\"0\"]", Fault::NoOpenTime),
        ("[-5]", Fault::NoOpenTime),
        ("[0, \"1\"]", Fault::Short),
        ("[0, 1, 2, 3, 4.5, 5, 6, \"7\"]", Fault::BadNumber(4)),
        ("[0, 1, 2, 3, \"4.5\", 5, 6]", Fault::Short),
        ("[0, 1, 2, 3, \"4.5\", 5, 6, \"seven\"]", Fault::BadNumber(7)),
    ] {
        let r = b.accept(&json_rows(&format!("[{good}, {row}, 7]")));
        assert_eq!(fault(r), (1, expected), "{row}");
        assert_eq!(b, Binance::new(Grain::Quarter, 0, 4_500_000));
    }
    let mut minutes = Binance::new(Grain::Minute, 0, 4_500_000);
    let page = minutes.accept(&json_rows("[[61000, 1, 2, 3, \"4.5\"]]")).ok().unwrap();
    assert_eq!(page.candles, vec![Candle { ts: 60, close: num(4.5), volume: Volume::Unread }]);
    let last = format!("[{}, 1, 2, 3, \"4.5\"]", u64::MAX);
    let full = format!("[{}]", vec![last; 1000].join(","));
    assert_eq!(fault(minutes.accept(&json_rows(&full))), (1000, Fault::Overflow));
}

#[test]
fn okx_pages() {
    let mut o = Okx::new(Grain::Minute, 600, 1200);
    assert_eq!(
        o.url(),
        "https://www.okx.com/api/v5/market/history-candles?instId=DOT-USDT&bar=1m&after=1200000&limit=100"
    );
    let page = o
        .accept(&rows(&[&["1140000", "1", "2", "3", "1.5"], &["599999"], &["1080001", "1", "2", "3", "1.25"]]))
        .ok()
        .unwrap();
    assert!(page.done);
    assert_eq!(page.counted, 3);
    assert_eq!(closes(&page.candles), vec![(1140, 1.5), (1080, 1.25)]);

    let times: Vec<String> = (0..100).map(|i| (1_200_000 - 1_000 * i).to_string()).collect();
    let cells: Vec<Vec<&str>> = times.iter().map(|t| vec![t.as_str(), "1", "2", "3", "4"]).collect();
    let views: Vec<&[&str]> = cells.iter().map(|c| c.as_slice()).collect();
    let page = o.accept(&rows(&views)).ok().unwrap();
    assert!(!page.done);
    assert_eq!(o.after_ms, 1_101_000);
    assert_eq!(page.progress, Some((99_000, 600_000)));
    assert!(o.url().contains("&after=1101000&"));
    let page = o.accept(&rows(&[])).ok().unwrap();
    assert!(page.done && page.counted == 0);
}

fn okx_page(times: Vec<u64>) -> Vec<Vec<Cell>> {
    times
        .into_iter()
        .map(|t| vec![cell(&t.to_string()), cell("1"), cell("2"), cell("3"), cell("4")])
        .collect()
}

#[test]
fn an_okx_page_before_the_window_is_the_last() {
    let mut o = Okx::new(Grain::Minute, 600, 1200);
    let start = o;
    let page = o.accept(&okx_page((0..100).map(|i| 599_999 - 5_000 * i).collect())).ok().unwrap();
    assert!(page.done);
    assert!(page.candles.is_empty());
    assert_eq!((page.counted, page.progress), (100, None));
    assert_eq!(o, start);
}

#[test]
fn an_okx_page_across_the_start_is_the_last() {
    let mut o = Okx::new(Grain::Minute, 600, 1200);
    let times: Vec<u64> = (0..100).map(|i| 1_199_000 - 6_000 * i - 1).collect();
    let page = o.accept(&okx_page(times)).ok().unwrap();
    assert!(!page.done);
    assert_eq!(o.after_ms, 604_999);
    let start = o;
    let page = o.accept(&okx_page((0..100).map(|i| 604_998 - 100 * i).collect())).ok().unwrap();
    assert!(page.done);
    assert_eq!(page.candles.len(), 50);
    assert_eq!((page.counted, page.progress), (100, None));
    assert_eq!(o, start);
}

#[test]
fn okx_faults() {
    let mut o = Okx::new(Grain::Quarter, 900, 1800);
    for (row, expected) in [
        (vec![], Fault::NoTime),
        (vec!["soon"], Fault::BadTime(IntError::InvalidDigit)),
        (vec![""], Fault::BadTime(IntError::Empty)),
        (vec!["900000", "1", "2", "3"], Fault::NoClose),
        (vec!["900000", "1", "2", "3", "x", "5", "6"], Fault::BadNumber(4)),
        (vec!["900000", "1", "2", "3", "4", "5"], Fault::NoVolume),
        (vec!["900000", "1", "2", "3", "4", "5", ""], Fault::BadNumber(6)),
    ] {
        assert_eq!(fault(o.accept(&rows(&[&row]))), (0, expected));
    }
    let page = o.accept(&rows(&[&["900000", "1", "2", "3", "4", "5", "6"]])).ok().unwrap();
    assert_eq!(
        page.candles,
        vec![Candle { ts: 900, close: num(4.0), volume: Volume::Stated(num(6.0)) }]
    );
}

fn number_row(cells: &[f64]) -> Vec<NumberCell> {
    cells.iter().map(|x| NumberCell { number: num(*x), whole: *x as u64 }).collect()
}

#[test]
fn coinbase_pages() {
    let mut c = Coinbase::new(Grain::Quarter, 900, 271_800);
    assert!(c.pending());
    assert_eq!(
        c.url(),
        "https://api.exchange.coinbase.com/products/DOT-USD/candles?start=900&end=270900&granularity=900"
    );
    let page = c.accept(&vec![
        number_row(&[1800.9, 1.0, 2.0, 3.0, 4.5, 10.0]),
        number_row(&[899.0, 1.0, 2.0, 3.0, 4.5, 10.0]),
        number_row(&[271_800.0, 1.0, 2.0, 3.0, 4.5, 10.0]),
        number_row(&[1800.0, 1.0]),
        number_row(&[-5.0, 1.0, 2.0, 3.0, 4.5, 10.0]),
    ]);
    assert!(!page.done);
    assert_eq!(page.counted, 5);
    assert_eq!(page.progress, Some((270_000, 270_900)));
    assert_eq!(
        page.candles,
        vec![Candle { ts: 1800, close: num(4.5), volume: Volume::Product(num(4.5), num(10.0)) }]
    );
    assert!(c.url().contains("start=270900&end=271800&"));
    let page = c.accept(&vec![]);
    assert!(page.done && !c.pending());
    assert!(!Coinbase::new(Grain::Minute, 60, 60).pending());
    let m = Coinbase::new(Grain::Minute, 0, 100_000);
    assert!(m.url().ends_with("start=0&end=18000&granularity=60"));
}

fn kraken_page(text: &str) -> Result<KrakenRows, Fault> {
    read_result(&serde_json::from_str::<Value>(text).unwrap())
        .map(|p| KrakenRows { last: p.last, rows: with_numbers(p.rows) })
}

#[test]
fn kraken_results() {
    assert!(matches!(kraken_page("[]"), Err(Fault::NoObject)));
    assert!(matches!(kraken_page("{}"), Err(Fault::NoLast)));
    assert!(matches!(kraken_page("{\"X\":[],\"last\":\"1\"}"), Err(Fault::NoLast)));
    assert!(matches!(kraken_page("{\"last\":1}"), Err(Fault::NoPairArray)));
    assert!(matches!(kraken_page("{\"last\":1,\"X\":5,\"Y\":[]}"), Err(Fault::NoPairArray)));
    let page = kraken_page("{\"last\":9,\"X\":[[1]],\"Y\":[]}").ok().unwrap();
    assert_eq!((page.last, page.rows.len()), (9, 1));
    let page = kraken_page("{\"X\":[[1],2],\"last\":9}").ok().unwrap();
    assert_eq!((page.last, page.rows.len()), (9, 2));
}

#[test]
fn kraken_pages() {
    let mut k = Kraken::new(900, 9000);
    assert_eq!(
        k.url(),
        "https://api.kraken.com/0/public/OHLC?pair=DOTUSD&interval=15&since=900"
    );
    let page = kraken_page(
        "{\"DOTUSD\":[[1801,\"1\",\"2\",\"3\",\"4\",\"5\",\"6\",7],[9000],[899]],\"last\":1800}",
    )
    .ok()
    .unwrap();
    let p = k.accept(&page).ok().unwrap();
    assert!(!p.done);
    assert_eq!(k.since, 1800);
    assert_eq!(
        p.candles,
        vec![Candle { ts: 1800, close: num(4.0), volume: Volume::Product(num(5.0), num(6.0)) }]
    );
    let p = k.accept(&page).ok().unwrap();
    assert!(p.done);
    assert_eq!(k.since, 1800);
    for last in [9000, 9001] {
        let page = kraken_page(&format!("{{\"last\":{last},\"X\":[[899]]}}")).ok().unwrap();
        assert!(Kraken::new(900, 9000).accept(&page).ok().unwrap().done);
    }
    let empty = kraken_page("{\"last\":1800,\"X\":[]}").ok().unwrap();
    let p = Kraken::new(900, 9000).accept(&empty).ok().unwrap();
    assert!(p.done && p.candles.is_empty());
    let page = kraken_page("{\"last\":1800,\"X\":[[9000]]}").ok().unwrap();
    assert!(Kraken::new(0, 9000).accept(&page).ok().unwrap().done);
    assert!(!Kraken::new(1, 9000).accept(&page).ok().unwrap().done);
}

#[test]
fn kraken_faults() {
    for (row, expected) in [
        ("5", Fault::NoRowArray),
        ("[]", Fault::Short),
        ("[\"900\"]", Fault::NoRowTime),
        ("[900,1,2,3]", Fault::Short),
        ("[900,1,2,3,4,\"5\",\"6\"]", Fault::BadNumber(4)),
        ("[900,1,2,3,\"4\",5,\"6\"]", Fault::BadNumber(5)),
        ("[900,1,2,3,\"4\",\"5\"]", Fault::Short),
        ("[900,1,2,3,\"4\",\"5\",\"\"]", Fault::BadNumber(6)),
    ] {
        let page = kraken_page(&format!("{{\"last\":1,\"X\":[[0],{row}]}}")).ok().unwrap();
        assert_eq!(fault(Kraken::new(900, 9000).accept(&page)), (1, expected), "{row}");
    }
}

#[test]
fn bybit_pages() {
    let mut b = Bybit::new(Grain::Minute, 600, 1200);
    assert_eq!(
        b.url(),
        "https://api.bybit.com/v5/market/kline?category=spot&symbol=DOTUSDT&interval=1&end=1200000&limit=1000"
    );
    let page = b
        .accept(&rows(&[
            &["1200000", "1", "2", "3", "4", "5", "6"],
            &["1199999", "1", "2", "3", "4", "5", "x"],
            &["x"],
            &["599999", "1", "2", "3", "x", "5", "6"],
        ]))
        .ok()
        .unwrap();
    assert!(page.done);
    assert_eq!(closes(&page.candles), vec![(1140, 4.0)]);
    assert_eq!(
        fault(b.accept(&rows(&[&["", "1", "2", "3", "4", "5", "6"]]))),
        (0, Fault::BadTime(IntError::Empty))
    );
    assert_eq!(
        fault(b.accept(&rows(&[&["600000", "1", "2", "3", "x", "5", "6"]]))),
        (0, Fault::BadNumber(4))
    );
    let one: &[&str] = &["1100000", "1", "2", "3", "4", "5", "6"];
    let page = b.accept(&rows(&vec![one; 1000])).ok().unwrap();
    assert!(!page.done);
    assert_eq!(b.end_ms, 1_099_999);
    assert_eq!(page.progress, Some((100_001, 600_000)));
    let start: &[&str] = &["600000", "1", "2", "3", "4", "5", "6"];
    assert!(b.accept(&rows(&vec![start; 1000])).ok().unwrap().done);
    let mut q = Bybit::new(Grain::Quarter, 0, 1200);
    assert!(q.url().contains("interval=15&"));
    assert_eq!(
        fault(q.accept(&rows(&[&["600000", "1", "2", "3", "4", "5", "x"]]))),
        (0, Fault::BadNumber(6))
    );
    let page = q.accept(&rows(&[start])).ok().unwrap();
    assert_eq!(page.candles[0].volume, Volume::Stated(num(6.0)));
}

#[test]
fn kucoin_pages() {
    let mut k = KuCoin::new(Grain::Minute, 600, 200_000);
    assert_eq!(
        k.url(),
        "https://api.kucoin.com/api/v1/market/candles?symbol=DOT-USDT&type=1min&startAt=110000&endAt=200000"
    );
    let page = k
        .accept(&rows(&[
            &["199980", "1", "2.5", "3", "4", "5", "6"],
            &["200000", "1", "x", "3", "4", "5", "6"],
            &["110000", "1", "3.5", "3", "4", "5", "6"],
            &["1"],
        ]))
        .ok()
        .unwrap();
    assert!(!page.done);
    assert_eq!(closes(&page.candles), vec![(199_980, 2.5), (109_980, 3.5)]);
    assert_eq!(k.end_s, 109_999);
    assert_eq!(page.progress, Some((90_001, 199_400)));
    assert!(k.url().ends_with("startAt=19999&endAt=109999"));
    k.end_s = 90_600;
    let page = k.accept(&rows(&[&["90000", "1", "2.5", "3", "4", "5", "6"]])).ok().unwrap();
    assert!(page.done);
    assert!(k.accept(&rows(&[])).ok().unwrap().done);
    assert_eq!(
        fault(k.accept(&rows(&[&["t", "1", "2.5", "3", "4", "5", "6"]]))),
        (0, Fault::BadTime(IntError::InvalidDigit))
    );
    assert_eq!(
        fault(k.accept(&rows(&[&["700", "1", "", "3", "4", "5", "6"]]))),
        (0, Fault::BadNumber(2))
    );
    let mut q = KuCoin::new(Grain::Quarter, 0, 1800);
    assert!(q.url().ends_with("type=15min&startAt=0&endAt=1800"));
    let page = q.accept(&rows(&[&["901", "1", "2.5", "3", "4", "5", "6"]])).ok().unwrap();
    assert_eq!(
        page.candles,
        vec![Candle { ts: 900, close: num(2.5), volume: Volume::Stated(num(6.0)) }]
    );
    assert_eq!(
        fault(q.accept(&rows(&[&["901", "1", "2.5", "3", "4", "5", "x"]]))),
        (0, Fault::BadNumber(6))
    );
}

#[test]
fn cryptocom_pages() {
    let mut c = CryptoCom::new(Grain::Quarter, 900, 272_700);
    assert!(c.pending());
    assert_eq!(
        c.url(),
        "https://api.crypto.com/exchange/v1/public/get-candlestick?instrument_name=DOT_USD&timeframe=15m&start_ts=900000&end_ts=270900000&count=300"
    );
    let row = |time: u64, close: &str, volume: &str| CryptoRow {
        time,
        close: cell(close),
        volume: cell(volume),
    };
    let page = c
        .accept(&vec![
            row(899_999, "x", "x"),
            row(272_700_000, "x", "x"),
            row(1_800_500, "1.5", "2"),
        ])
        .ok()
        .unwrap();
    assert!(!page.done);
    assert_eq!(page.counted, 3);
    assert_eq!(
        page.candles,
        vec![Candle { ts: 1800, close: num(1.5), volume: Volume::Product(num(1.5), num(2.0)) }]
    );
    assert_eq!(page.progress, Some((270_000_000, 271_800_000)));
    assert_eq!(fault(c.accept(&vec![row(900_000, "", "1")])), (0, Fault::BadNumber(0)));
    assert_eq!(fault(c.accept(&vec![row(900_000, "1", "")])), (0, Fault::BadNumber(1)));
    let page = c.accept(&vec![]).ok().unwrap();
    assert!(page.done && page.counted == 0 && !c.pending());
    assert_eq!(page.progress, Some((271_800_000, 271_800_000)));
    let mut m = CryptoCom::new(Grain::Minute, 0, 60);
    assert!(m.url().contains("timeframe=1m&start_ts=0&end_ts=60000&"));
    let page = m.accept(&vec![row(59_999, "2.5", "")]).ok().unwrap();
    assert_eq!(page.candles, vec![Candle { ts: 0, close: num(2.5), volume: Volume::Unread }]);
    assert!(!CryptoCom::new(Grain::Minute, 60, 60).pending());
}

#[test]
fn an_empty_window_asks_for_nothing() {
    for (from, to) in [(60, 60), (120, 60), (u64::MAX / 1000, 0)] {
        assert!(!Coinbase::new(Grain::Minute, from, to).pending());
        assert!(!CryptoCom::new(Grain::Minute, from, to).pending());
    }
    assert!(Coinbase::new(Grain::Quarter, 0, 1).pending());
    assert!(CryptoCom::new(Grain::Quarter, 0, 1).pending());
}

#[test]
fn walks_end() {
    let mut c = Coinbase::new(Grain::Minute, 0, 100_000);
    let mut pages = 0;
    while c.pending() {
        let before = c.start;
        c.accept(&vec![]);
        assert!(c.start > before);
        pages += 1;
    }
    assert_eq!(pages, 6);
}

#[test]
fn faults_in_words() {
    for (fault, words) in [
        (Fault::NoKlineArray, "non-array kline row"),
        (Fault::NoOpenTime, "missing openTime"),
        (Fault::NoTime, "missing ts"),
        (Fault::BadTime(IntError::InvalidDigit), "bybit ts parse: invalid digit found in string"),
        (Fault::NoClose, "missing close"),
        (Fault::NoVolume, "missing volCcy"),
        (Fault::NoObject, "kraken: result not an object"),
        (Fault::NoLast, "kraken: missing last"),
        (Fault::NoPairArray, "kraken: no pair array"),
        (Fault::NoRowArray, "kraken row not array"),
        (Fault::NoRowTime, "kraken row ts"),
    ] {
        assert_eq!(fault_text(fault, "bybit "), Some(words.to_string()));
    }
    assert_eq!(
        fault_text(Fault::BadTime(IntError::Empty), ""),
        Some("ts parse: cannot parse integer from empty string".to_string())
    );
    for fault in [Fault::BadNumber(4), Fault::Short, Fault::Overflow] {
        assert_eq!(fault_text(fault, ""), None);
    }
}
