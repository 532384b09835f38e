//! The lines of the logs.

use dot_price::backfill::aligned_line;
use dot_price::grid::Row;
use dot_price::ndjson::{
    cells_line, errors_line, results_line, row_line, vwap_errors_line, vwap_results_line,
    write_line, VwapSample,
};
use dot_price::venue::{live, with_history, with_minutes, Venue};
use serde_json::{Map as Object, Value};

#[test]
fn prices_of_a_round() {
    let prices = vec![1.259, 1.259, 1.257, 1.2573, 1.259, 1.2595, 1.2574, 1.26];
    let cells: Vec<(Venue, Value)> =
        live().into_iter().zip(prices).map(|(v, p)| (v, Value::from(p))).collect();
    assert_eq!(
        results_line(1779874404, cells),
        "{\"ts\":1779874404,\"Binance\":1.259,\"OKX\":1.259,\"Coinbase\":1.257,\"Kraken\":1.2573,\
         \"Bybit\":1.259,\"KuCoin\":1.2595,\"Crypto.com\":1.2574,\"Gate.io\":1.26}\n"
    );
    assert_eq!(results_line(7, vec![]), "{\"ts\":7}\n");
}

#[test]
fn failures_of_a_round() {
    assert_eq!(errors_line(5, vec![]), None);
    assert_eq!(
        errors_line(5, vec![(Venue::Okx, "a \"b\"\n".to_string()), (Venue::Gate, "c".to_string())]),
        Some("{\"ts\":5,\"OKX\":\"a \\\"b\\\"\\n\",\"Gate.io\":\"c\"}\n".to_string())
    );
}

#[test]
fn failures_of_a_volume_round_are_marked() {
    assert_eq!(vwap_errors_line(5, vec![]), None);
    assert_eq!(
        vwap_errors_line(5, vec![(Venue::CryptoCom, "empty data array".to_string())]),
        Some("{\"ts\":5,\"vwap:Crypto.com\":\"empty data array\"}\n".to_string())
    );
}

#[test]
fn volumes_of_a_round() {
    let samples = vec![
        (Venue::Binance, VwapSample { vwap: Value::from(1.25), quote_volume: Value::from(1e6) }),
        (Venue::Kraken, VwapSample { vwap: Value::from(f64::NAN), quote_volume: Value::from(0.5) }),
    ];
    assert_eq!(
        vwap_results_line(9, samples),
        "{\"ts\":9,\"Binance\":{\"vwap\":1.25,\"volume\":1000000.0},\
         \"Kraken\":{\"vwap\":null,\"volume\":0.5}}\n"
    );
}

#[test]
fn a_key_that_occurs_twice_keeps_its_place() {
    let cells = vec![
        ("a".to_string(), Value::from(1)),
        ("b".to_string(), Value::from(2)),
        ("a".to_string(), Value::from(3)),
        ("ts".to_string(), Value::from(4)),
    ];
    assert_eq!(row_line(0, cells), "{\"ts\":4,\"a\":3,\"b\":2}\n");
    assert_eq!(
        cells_line(vec![("x".to_string(), Value::Null), ("x".to_string(), Value::Bool(true))]),
        "{\"x\":true}\n"
    );
}

#[test]
fn an_object_is_one_line() {
    assert_eq!(write_line(&Object::new()), "{}\n");
    let mut obj = Object::new();
    obj.insert("text".to_string(), Value::from("line\nbreak\r"));
    assert_eq!(write_line(&obj), "{\"text\":\"line\\nbreak\\r\"}\n");
}

#[test]
fn objects_come_apart_again() {
    let nested: Value = serde_json::from_str("{\"a\":[1,{\"b\":\"x\\ny\"}],\"c\":null}").unwrap();
    let mut objects: Vec<Object<String, Value>> = vec![Object::new()];
    for i in 0..5 {
        let mut obj = Object::new();
        obj.insert("ts".to_string(), Value::from(60 * i));
        obj.insert("text\n".to_string(), Value::from("one\ntwo\r\n\u{2028}three"));
        obj.insert("nested".to_string(), nested.clone());
        objects.push(obj);
    }
    let text: String = objects.iter().map(|obj| write_line(obj)).collect();
    assert_eq!(text.matches('\n').count(), objects.len());
    let lines: Vec<&str> = text.lines().collect();
    assert_eq!(lines.len(), objects.len());
    for (line, obj) in lines.iter().zip(&objects) {
        assert_eq!(serde_json::from_str::<Object<String, Value>>(line).unwrap(), *obj);
    }
}

#[test]
fn rows_read_back() {
    let sample = VwapSample { vwap: Value::from(1.25), quote_volume: Value::from(0.1) };
    let line = vwap_results_line(9, vec![(Venue::Okx, sample)]);
    let row: Object<String, Value> = serde_json::from_str(&line).unwrap();
    assert_eq!(row["ts"], Value::from(9));
    assert_eq!(row["OKX"]["vwap"], Value::from(1.25));
    assert_eq!(row["OKX"]["volume"], Value::from(0.1));
    let words = "decoding failed:\n\t\"x\"\u{0}";
    let line = errors_line(u64::MAX, vec![(Venue::Gate, words.to_string())]).unwrap();
    let row: Object<String, Value> = serde_json::from_str(&line).unwrap();
    assert_eq!(row["ts"], Value::from(u64::MAX));
    assert_eq!(row["Gate.io"], Value::from(words));
    assert_eq!(line.matches('\n').count(), 1);
}

#[test]
fn depth_up_to_which_objects_read_back() {
    let deep = |n: usize| {
        let mut value = Value::Null;
        for _ in 0..n {
            value = Value::from(vec![value]);
        }
        let mut obj = Object::new();
        obj.insert("deep".to_string(), value);
        obj
    };
    let obj = deep(126);
    let line = write_line(&obj);
    assert_eq!(serde_json::from_str::<Object<String, Value>>(&line).unwrap(), obj);
    let line = write_line(&deep(127));
    assert!(serde_json::from_str::<Object<String, Value>>(&line).is_err());
}

#[test]
fn rows_of_a_grid() {
    let row = Row { ts: 900, cells: vec![(0, ()), (3, ()), (6, ())] };
    let values = vec![Value::from(1.5), Value::from(2.5), Value::from(3.5)];
    assert_eq!(
        aligned_line(&with_history(), &row, values),
        "{\"ts\":900,\"Binance\":1.5,\"Kraken\":2.5,\"Crypto.com\":3.5}\n"
    );
    let row = Row { ts: 60, cells: vec![(3, ()), (5, ())] };
    assert_eq!(
        aligned_line(&with_minutes(), &row, vec![Value::from(1.0), Value::from(0.1)]),
        "{\"ts\":60,\"Bybit\":1.0,\"Crypto.com\":0.1}\n"
    );
}

#[test]
fn venue_names_are_distinct() {
    let names: Vec<&str> = live().into_iter().map(|v| v.name()).collect();
    for (i, a) in names.iter().enumerate() {
        assert_ne!(*a, "ts");
        for b in &names[i + 1..] {
            assert_ne!(a, b);
        }
    }
    assert_eq!(
        names,
        ["Binance", "OKX", "Coinbase", "Kraken", "Bybit", "KuCoin", "Crypto.com", "Gate.io"]
    );
    assert_eq!(with_history().len(), 7);
    assert!(!with_history().contains(&Venue::Gate));
    assert_eq!(with_minutes().len(), 6);
    assert!(!with_minutes().contains(&Venue::Kraken));
}
