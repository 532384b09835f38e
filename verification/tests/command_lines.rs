//! The command lines of the three programs.

use dot_price::args::{int_error_text, ArgError};
use dot_price::divergence::args::{
    parse_args as parse_divergence, Command as DivergenceCommand, Config as DivergenceConfig,
};
use dot_price::history::args::{
    parse_args as parse_history, Command as HistoryCommand, Config as HistoryConfig,
};
use dot_price::live::args::{
    parse_args as parse_live, parse_interval, Command as LiveCommand, Config as LiveConfig,
};
use dot_price::text::IntError;

fn words(args: &[&str]) -> Vec<String> {
    args.iter().map(|a| a.to_string()).collect()
}

fn live(args: &[&str]) -> Result<Option<LiveConfig>, ArgError> {
    parse_live(&words(args)).map(|c| match c {
        LiveCommand::Help => None,
        LiveCommand::Run(cfg) => Some(cfg),
    })
}

fn live_run(args: &[&str]) -> LiveConfig {
    match live(args) {
        Ok(Some(cfg)) => cfg,
        _ => panic!("not a run"),
    }
}

fn history(args: &[&str], now: u64) -> Result<Option<HistoryConfig>, ArgError> {
    parse_history(&words(args), now).map(|c| match c {
        HistoryCommand::Help => None,
        HistoryCommand::Run(cfg) => Some(cfg),
    })
}

fn history_run(args: &[&str], now: u64) -> HistoryConfig {
    match history(args, now) {
        Ok(Some(cfg)) => cfg,
        _ => panic!("not a run"),
    }
}

fn divergence(args: &[&str]) -> Result<Option<DivergenceConfig>, ArgError> {
    parse_divergence(&words(args)).map(|c| match c {
        DivergenceCommand::Help => None,
        DivergenceCommand::Run(cfg) => Some(cfg),
    })
}

fn divergence_run(args: &[&str]) -> DivergenceConfig {
    match divergence(args) {
        Ok(Some(cfg)) => cfg,
        _ => panic!("not a run"),
    }
}

fn message<T>(r: Result<Option<T>, ArgError>) -> (String, Option<IntError>) {
    match r {
        Err(e) => (e.message, e.cause),
        Ok(_) => panic!("accepted"),
    }
}

#[test]
fn live_defaults() {
    let cfg = live_run(&[]);
    assert_eq!(cfg.interval_ms, None);
    assert_eq!(cfg.vwap_interval_ms, 3_600_000);
    assert!(cfg.results_path.is_none() && cfg.errors_path.is_none() && cfg.vwap_path.is_none());
    assert!(!cfg.no_log && !cfg.quiet);
}

#[test]
fn live_options() {
    let cfg = live_run(&[
        "--interval", "6000", "--vwap-interval=1000", "-o", "r.ndjson", "--errors=e.ndjson",
        "--vwap-results", "v.ndjson", "-q",
    ]);
    assert_eq!(cfg.interval_ms, Some(6000));
    assert_eq!(cfg.vwap_interval_ms, 1000);
    assert_eq!(cfg.results_path.as_deref(), Some("r.ndjson"));
    assert_eq!(cfg.errors_path.as_deref(), Some("e.ndjson"));
    assert_eq!(cfg.vwap_path.as_deref(), Some("v.ndjson"));
    assert!(cfg.quiet);
    assert_eq!(live_run(&["-i", "5"]).interval_ms, Some(5));
    assert_eq!(live_run(&["--interval=7"]).interval_ms, Some(7));
    assert_eq!(live_run(&["--ndjson=a", "--results=b"]).results_path.as_deref(), Some("b"));
    assert_eq!(live_run(&["--ndjson", "a"]).results_path.as_deref(), Some("a"));
    assert_eq!(live_run(&["-e", "x"]).errors_path.as_deref(), Some("x"));
    assert!(live_run(&["--no-log"]).no_log);
    assert_eq!(live_run(&["--results=--results=b"]).results_path.as_deref(), Some("b"));
}

#[test]
fn live_help_comes_first() {
    assert!(matches!(live(&["--help"]), Ok(None)));
    assert!(matches!(live(&["-h", "--bogus"]), Ok(None)));
    assert!(matches!(live(&["--no-log", "-o", "x", "-h"]), Ok(None)));
}

#[test]
fn live_refusals() {
    assert_eq!(
        message(live(&["--bogus"])),
        ("unknown argument: --bogus".to_string(), None)
    );
    assert_eq!(
        message(live(&["--interval"])).0,
        "--interval requires a value in milliseconds"
    );
    assert_eq!(
        message(live(&["--vwap-interval"])).0,
        "--vwap-interval requires a value in milliseconds"
    );
    assert_eq!(message(live(&["--ndjson"])).0, "--results requires a file path");
    assert_eq!(message(live(&["-e"])).0, "--errors requires a file path");
    assert_eq!(message(live(&["--vwap-results"])).0, "--vwap-results requires a file path");
    assert_eq!(
        message(live(&["-i", "0"])),
        ("interval must be greater than 0".to_string(), None)
    );
    assert_eq!(
        message(live(&["-i", "six\n"])),
        (
            "invalid interval \"six\\n\"; expected milliseconds".to_string(),
            Some(IntError::InvalidDigit)
        )
    );
    assert_eq!(
        message(live(&["--no-log", "--results", "x"])).0,
        "--no-log cannot be combined with --results/--errors/--vwap-results"
    );
    assert_eq!(
        message(live(&["--errors", "x", "--no-log"])).0,
        "--no-log cannot be combined with --results/--errors/--vwap-results"
    );
    assert_eq!(
        message(live(&["--vwap-results=x", "--no-log"])).0,
        "--no-log cannot be combined with --results/--errors/--vwap-results"
    );
}

#[test]
fn intervals() {
    assert!(matches!(parse_interval("250"), Ok(250)));
    match parse_interval("") {
        Err(e) => {
            assert_eq!(e.message, "invalid interval \"\"; expected milliseconds");
            assert_eq!(e.cause, Some(IntError::Empty));
        }
        Ok(_) => panic!("accepted"),
    }
}

#[test]
fn history_defaults() {
    let cfg = history_run(&[], 1_700_000_000);
    assert_eq!(cfg.from, 1_700_000_000 - 365 * 86_400);
    assert_eq!(cfg.to, 1_700_000_000);
    assert_eq!(cfg.results_path, "results_historical.ndjson");
    assert_eq!(cfg.vwap_path, "vwap_historical.ndjson");
    assert_eq!(cfg.errors_path, "errors_historical.ndjson");
    assert!(!cfg.quiet);
    let early = history_run(&[], 1_000);
    assert_eq!((early.from, early.to), (0, 1_000));
}

#[test]
fn history_options() {
    let cfg = history_run(
        &["--from", "900", "--to=1800", "-o", "a", "--vwap-results=b", "-e", "c", "--quiet"],
        5,
    );
    assert_eq!((cfg.from, cfg.to), (900, 1800));
    assert_eq!((cfg.results_path, cfg.vwap_path, cfg.errors_path), ("a".into(), "b".into(), "c".into()));
    assert!(cfg.quiet);
    assert!(matches!(history(&["--help"], 0), Ok(None)));
}

#[test]
fn history_refusals() {
    assert_eq!(message(history(&[], 0)).0, "--to must be greater than --from");
    assert_eq!(
        message(history(&["--from=10", "--to=10"], 99)).0,
        "--to must be greater than --from"
    );
    assert_eq!(message(history(&["--from"], 99)).0, "--from requires a value");
    assert_eq!(
        message(history(&["--to", "x"], 99)),
        ("invalid value for --to".to_string(), Some(IntError::InvalidDigit))
    );
    assert_eq!(message(history(&["--to=x"], 99)).0, "invalid digit found in string");
    assert_eq!(message(history(&["--occurrences", "x"], 99)).0, "unknown argument: --occurrences");
}

#[test]
fn divergence_defaults_and_options() {
    let cfg = divergence_run(&[]);
    assert!(cfg.from.is_none() && cfg.to.is_none() && cfg.input.is_none() && !cfg.quiet);
    assert_eq!(cfg.results_path, "divergence_1m.ndjson");
    assert_eq!(cfg.occurrences_path, "divergence_occurrences.ndjson");
    assert_eq!(cfg.errors_path, "errors_divergence.ndjson");
    let cfg = divergence_run(&[
        "--from=60", "--to", "120", "--results=r", "--occurrences", "o", "--errors=e", "-i", "in", "-q",
    ]);
    assert_eq!((cfg.from, cfg.to), (Some(60), Some(120)));
    assert_eq!(cfg.results_path, "r");
    assert_eq!(cfg.occurrences_path, "o");
    assert_eq!(cfg.errors_path, "e");
    assert_eq!(cfg.input.as_deref(), Some("in"));
    assert!(cfg.quiet);
    assert_eq!(divergence_run(&["--input=x"]).input.as_deref(), Some("x"));
    assert_eq!(divergence_run(&["--occurrences=x"]).occurrences_path, "x");
    assert!(matches!(divergence(&["-h"]), Ok(None)));
}

#[test]
fn divergence_refusals() {
    assert_eq!(
        message(divergence(&["--from=60", "--to=60"])).0,
        "--to must be greater than --from"
    );
    assert_eq!(divergence_run(&["--from=60"]).from, Some(60));
    assert_eq!(message(divergence(&["--input"])).0, "--input requires a value");
    assert_eq!(message(divergence(&["--vwap-results=x"])).0, "unknown argument: --vwap-results=x");
    assert_eq!(
        message(divergence(&["--from", "18446744073709551616"])),
        ("invalid value for --from".to_string(), Some(IntError::Overflow))
    );
}

#[test]
fn number_errors_as_std_words_them() {
    assert_eq!(int_error_text(IntError::Empty), "".parse::<u64>().unwrap_err().to_string());
    assert_eq!(int_error_text(IntError::InvalidDigit), "x".parse::<u64>().unwrap_err().to_string());
    assert_eq!(
        int_error_text(IntError::Overflow),
        "18446744073709551616".parse::<u64>().unwrap_err().to_string()
    );
}
