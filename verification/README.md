# dot-price

Spot prices of [Polkadot (DOT)](https://polkadot.network) at several centralized
exchanges: polled live, backfilled from candles, and compared minute by minute.
USDT and USD quotes are pooled together (USDT ≈ USD). No aggregation is performed:
every exchange is listed side by side.

The logic is a library written in Rust and verified with
[Verus](https://github.com/verus-lang/verus). A thin program around it does the
network, the files and the arithmetic on floating-point numbers.

## Programs

One program goes by three names.

| Name | What it does |
|------|--------------|
| `dot-price` | polls 8 exchanges for their price and for what was traded in 24 hours |
| `dot-history` | backfills 15-minute candles of 7 exchanges, with the rolling 24-hour VWAP |
| `dot-divergence` | backfills 1-minute closes of 6 exchanges, or reads them from an earlier log, and reports how far the exchanges drifted apart |

Each explains its options with `--help`. All logs are NDJSON: one JSON object per
line, flushed immediately.

```json
{"ts":1779874404,"Binance":1.259,"OKX":1.259,"Coinbase":1.257,"Kraken":1.2573,"Bybit":1.259,"KuCoin":1.2595,"Crypto.com":1.2574,"Gate.io":1.26}
```

## Layout

| Path | What is in it |
|------|---------------|
| `src/text.rs`, `src/number.rs`, `src/clock.rs` | decimal numbers and alignment; comparisons of floating-point numbers by their bit patterns; the clock, the calendar and durations |
| `src/args.rs`, `src/*/args.rs` | the command lines |
| `src/venue.rs`, `src/grid.rs`, `src/backfill.rs` | the exchanges; values of several exchanges on a grid of time slots; fetched candles brought onto such a grid |
| `src/json.rs`, `src/ndjson.rs` | what the library asks of `serde_json`; the lines of the logs |
| `src/paging.rs`, `src/paging/` | one pager per exchange: what page to ask for, what is in it, where to go on |
| `src/retry.rs`, `src/progress.rs` | when a request is made again; how progress is shown |
| `src/live/` | the answers of the exchanges, a round of asking them, its tables and logs |
| `src/history/` | the day that slides over the slots of a window |
| `src/divergence/` | bands, episodes, the summary, reading a log back |
| `tests/` | the library from outside, with real floating-point numbers and real JSON |
| `app/` | the program |

## What is proved, and what is trusted

Every function of the library states what it returns, and Verus proves it. Properties
that span several functions are proof functions of their own, among them:

- episodes are maximal runs of slots of one band, in order, and together they span
  exactly the slots of their band; an analysis depends on nothing but the slots of its
  window, and can be put together from those of two parts (`src/divergence/laws.rs`);
- a log comes apart into one line per object, which reads back as that object
  (`src/ndjson.rs`);
- the closes written for a window load again, and give the same analysis
  (`src/divergence/round_trip.rs`);
- a summary leaves out no episode with a larger peak than one that it lists
  (`src/divergence/ranking.rs`);
- the rolling window holds exactly the slots of the last day (`src/history/rolling.rs`);
- every pager walks its window in one direction (`src/paging/`);
- up to the year 9999 the text of a time reads back as that time, and texts are in the
  order of the times (`src/clock.rs`).

What is not proved is stated on the functions marked `external_body`: they hand work
to `serde_json` (`src/json.rs`), to the system clock (`src/clock.rs`) and to the
`Debug` format of a text (`src/text.rs`).

Prices are carried through the library as bit patterns. It compares them; means,
quotients and sums are worked out in `app/` and handed in.

## License

MIT
