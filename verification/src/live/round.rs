//! One round of asking all exchanges.

use vstd::prelude::*;
use vstd::string::*;

use crate::live::args::Config;
use crate::live::sources::{pair, reliability};
use crate::number::{highest, lowest, Num};
use crate::text::{push_decimal, push_left_aligned, push_right_aligned};
use crate::venue::Venue;

verus! {

/// What came of a round: the exchanges that answered, and those that failed,
/// each in the order of the table.
pub struct Round<T> {
    pub answers: Vec<(Venue, T)>,
    pub errors: Vec<(Venue, String)>,
}

/// The exchanges that answered.
pub open spec fn answered<T>(venues: Seq<Venue>, results: Seq<Result<T, String>>) -> Seq<(Venue, T)>
    decreases results.len(),
{
    if results.len() == 0 {
        Seq::empty()
    } else {
        let before = answered(venues, results.drop_last());
        match results.last() {
            Ok(t) => before.push((venues[results.len() - 1], t)),
            Err(_) => before,
        }
    }
}

/// The exchanges that failed, with what they say.
pub open spec fn failed<T>(venues: Seq<Venue>, results: Seq<Result<T, String>>) -> Seq<
    (Venue, String),
>
    decreases results.len(),
{
    if results.len() == 0 {
        Seq::empty()
    } else {
        let before = failed(venues, results.drop_last());
        match results.last() {
            Ok(_) => before,
            Err(message) => before.push((venues[results.len() - 1], message)),
        }
    }
}

/// Sorts the results of the exchanges.
pub fn collect<T>(venues: &Vec<Venue>, results: Vec<Result<T, String>>) -> (r: Round<T>)
    requires
        venues@.len() == results@.len(),
    ensures
        r.answers@ == answered(venues@, results@),
        r.errors@ == failed(venues@, results@),
{
    let mut answers: Vec<(Venue, T)> = Vec::new();
    let mut errors: Vec<(Venue, String)> = Vec::new();
    let mut v: usize = 0;
    assert(results@.take(0) =~= Seq::empty());
    for result in it: results
        invariant
            it.seq() == results@,
            v == it.index(),
            venues@.len() == results@.len(),
            answers@ == answered(venues@, results@.take(v as int)),
            errors@ == failed(venues@, results@.take(v as int)),
    {
        assert(results@.take(v + 1).drop_last() =~= results@.take(v as int));
        assert(results@.take(v + 1).last() == result);
        assert(v < venues.len());
        match result {
            Ok(t) => {
                answers.push((venues[v], t));
            },
            Err(message) => {
                errors.push((venues[v], message));
            },
        }
        v = v + 1;
    }
    assert(results@.take(results@.len() as int) =~= results@);
    Round { answers, errors }
}

/// Every exchange either answers or fails.
pub proof fn every_result_counts<T>(venues: Seq<Venue>, results: Seq<Result<T, String>>)
    ensures
        answered(venues, results).len() + failed(venues, results).len() == results.len(),
    decreases results.len(),
{
    if results.len() > 0 {
        every_result_counts(venues, results.drop_last());
    }
}

/// No exchange answers where, and only where, every result is a failure.
pub proof fn nothing_answers_where_all_fail<T>(
    venues: Seq<Venue>,
    results: Seq<Result<T, String>>,
)
    ensures
        answered(venues, results).len() == 0 <==> forall|i: int|
            0 <= i < results.len() ==> (#[trigger] results[i]) is Err,
    decreases results.len(),
{
    if results.len() > 0 {
        let before = results.drop_last();
        nothing_answers_where_all_fail(venues, before);
        assert(results.last() == results[results.len() - 1]);
        if forall|i: int| 0 <= i < results.len() ==> (#[trigger] results[i]) is Err {
            assert forall|i: int| 0 <= i < before.len() implies (#[trigger] before[i]) is Err by {
                assert(before[i] == results[i]);
            }
        }
        if answered(venues, results).len() == 0 {
            assert forall|i: int| 0 <= i < results.len() implies (#[trigger] results[i]) is Err by {
                if i < before.len() {
                    assert(before[i] == results[i]);
                }
            }
        }
    }
}

// ---------------------------------------------------------------------------
// The spread
// ---------------------------------------------------------------------------

/// The lowest and the highest of some prices.
#[derive(Clone, Copy, Debug, PartialEq, Eq, Structural)]
pub struct Spread {
    pub low: Num,
    pub high: Num,
    /// Whether their distance can be measured by the lowest.
    pub measurable: bool,
}

/// Finds the lowest and the highest price. Their distance can be measured by
/// the lowest where that is above zero.
pub fn spread(prices: &Vec<Num>) -> (r: Option<Spread>)
    ensures
        r is None <==> prices@.len() == 0,
        r matches Some(s) ==> {
            &&& crate::number::is_lowest(prices@, Some(s.low))
            &&& crate::number::is_highest(prices@, Some(s.high))
            &&& s.measurable == crate::number::zero().below(s.low)
        },
{
    match (lowest(prices), highest(prices)) {
        (Some(low), Some(high)) => Some(Spread { low, high, measurable: low.positive() }),
        _ => None,
    }
}

// ---------------------------------------------------------------------------
// The table of prices
// ---------------------------------------------------------------------------

/// The line under the head and above the foot of the table of prices.
pub open spec fn price_rule() -> Seq<char> {
    crate::text::run('-', 56) + "\n"@
}

/// The head of the table of prices.
pub open spec fn price_head() -> Seq<char> {
    "Exchange     Pair             Price (USD)  Reliability\n"@ + price_rule()
}

/// The start of a row of the table of prices.
pub open spec fn price_cells(venue: Venue, price: Seq<char>) -> Seq<char> {
    crate::text::left_aligned(crate::venue::venue_name(venue), 12) + " "@
        + crate::text::left_aligned(crate::live::sources::pair_words(venue), 14) + " "@
        + crate::text::right_aligned(price, 13) + "  "@ + crate::live::sources::reliability_words(
        venue,
    )
}

/// A row of the table of prices: the price of an exchange, or a dash and what
/// the exchange says.
pub open spec fn price_row(venue: Venue, shown: Result<String, String>) -> Seq<char> {
    match shown {
        Ok(price) => price_cells(venue, price@) + "\n"@,
        Err(message) => price_cells(venue, "—"@) + " (error: "@ + message@ + ")\n"@,
    }
}

/// The rows of the table of prices.
pub open spec fn price_rows(rows: Seq<(Venue, Result<String, String>)>) -> Seq<char>
    decreases rows.len(),
{
    if rows.len() == 0 {
        Seq::empty()
    } else {
        price_rows(rows.drop_last()) + price_row(rows.last().0, rows.last().1)
    }
}

fn push_price_cells(out: &mut String, venue: Venue, price: &str)
    ensures
        final(out)@ == old(out)@ + price_cells(venue, price@),
{
    push_left_aligned(out, venue.name(), 12);
    out.append(" ");
    push_left_aligned(out, pair(venue), 14);
    out.append(" ");
    push_right_aligned(out, price, 13);
    out.append("  ");
    out.append(reliability(venue));
    assert(out@ =~= old(out)@ + price_cells(venue, price@));
}

fn push_price_row(out: &mut String, venue: Venue, shown: &Result<String, String>)
    ensures
        final(out)@ == old(out)@ + price_row(venue, *shown),
{
    match shown {
        Ok(price) => {
            push_price_cells(out, venue, price.as_str());
            out.append("\n");
        },
        Err(message) => {
            push_price_cells(out, venue, "—");
            out.append(" (error: ");
            out.append(message.as_str());
            out.append(")\n");
        },
    }
    assert(out@ =~= old(out)@ + price_row(venue, *shown));
}

fn push_rule(out: &mut String, n: usize)
    ensures
        final(out)@ == old(out)@ + crate::text::run('-', n as nat) + "\n"@,
{
    proof {
        reveal_strlit("-");
    }
    crate::text::push_run(out, "-", n);
    out.append("\n");
}

/// Draws the table of prices. The prices come as they are to be shown.
pub fn price_table(rows: &Vec<(Venue, Result<String, String>)>) -> (r: String)
    ensures
        r@ == price_head() + price_rows(rows@),
{
    let mut out = "Exchange     Pair             Price (USD)  Reliability\n".to_owned();
    push_rule(&mut out, 56);
    assert(out@ =~= price_head());
    let mut i: usize = 0;
    assert(rows@.take(0) =~= Seq::empty());
    assert(out@ =~= price_head() + price_rows(rows@.take(0)));
    while i < rows.len()
        invariant
            i <= rows@.len(),
            out@ == price_head() + price_rows(rows@.take(i as int)),
        decreases rows.len() - i,
    {
        assert(rows@.take(i + 1).drop_last() =~= rows@.take(i as int));
        push_price_row(&mut out, rows[i].0, &rows[i].1);
        i = i + 1;
        assert(out@ =~= price_head() + price_rows(rows@.take(i as int)));
    }
    assert(rows@.take(rows@.len() as int) =~= rows@);
    out
}

/// The foot of the table of prices.
pub open spec fn price_foot_words(
    n: nat,
    low: Seq<char>,
    high: Seq<char>,
    spread: Seq<char>,
) -> Seq<char> {
    price_rule() + crate::text::decimal(n) + " sources ok  |  min "@ + low + "  max "@ + high
        + "  spread "@ + spread + " bps\n"@
}

/// Draws the foot of the table of prices.
pub fn price_foot(n: usize, low: &str, high: &str, spread: &str) -> (r: String)
    ensures
        r@ == price_foot_words(n as nat, low@, high@, spread@),
{
    let mut out = String::new();
    push_rule(&mut out, 56);
    assert(out@ =~= price_rule());
    push_decimal(&mut out, n as u64);
    out.append(" sources ok  |  min ");
    out.append(low);
    out.append("  max ");
    out.append(high);
    out.append("  spread ");
    out.append(spread);
    out.append(" bps\n");
    out
}

// ---------------------------------------------------------------------------
// The table of what was traded
// ---------------------------------------------------------------------------

/// The head of the table of what was traded.
pub open spec fn vwap_head() -> Seq<char> {
    "Exchange       24h VWAP       24h quote vol\n"@ + crate::text::run('-', 44) + "\n"@
}

/// How what was traded at an exchange is shown.
pub struct DayTexts {
    pub vwap: String,
    pub quote_volume: String,
}

/// The start of a row of the table of what was traded.
pub open spec fn vwap_cells(venue: Venue, vwap: Seq<char>, volume: Seq<char>) -> Seq<char> {
    crate::text::left_aligned(crate::venue::venue_name(venue), 12) + " "@
        + crate::text::right_aligned(vwap, 10) + "  "@ + crate::text::right_aligned(volume, 18)
}

/// A row of the table of what was traded: the figures of an exchange, or dashes
/// and what the exchange says.
pub open spec fn vwap_row(venue: Venue, shown: Result<DayTexts, String>) -> Seq<char> {
    match shown {
        Ok(t) => vwap_cells(venue, t.vwap@, t.quote_volume@) + "\n"@,
        Err(message) => vwap_cells(venue, "—"@, "—"@) + "  (error: "@ + message@ + ")\n"@,
    }
}

/// The rows of the table of what was traded.
pub open spec fn vwap_rows(rows: Seq<(Venue, Result<DayTexts, String>)>) -> Seq<char>
    decreases rows.len(),
{
    if rows.len() == 0 {
        Seq::empty()
    } else {
        vwap_rows(rows.drop_last()) + vwap_row(rows.last().0, rows.last().1)
    }
}

fn push_vwap_cells(out: &mut String, venue: Venue, vwap: &str, volume: &str)
    ensures
        final(out)@ == old(out)@ + vwap_cells(venue, vwap@, volume@),
{
    push_left_aligned(out, venue.name(), 12);
    out.append(" ");
    push_right_aligned(out, vwap, 10);
    out.append("  ");
    push_right_aligned(out, volume, 18);
    assert(out@ =~= old(out)@ + vwap_cells(venue, vwap@, volume@));
}

fn push_vwap_row(out: &mut String, venue: Venue, shown: &Result<DayTexts, String>)
    ensures
        final(out)@ == old(out)@ + vwap_row(venue, *shown),
{
    match shown {
        Ok(t) => {
            push_vwap_cells(out, venue, t.vwap.as_str(), t.quote_volume.as_str());
            out.append("\n");
        },
        Err(message) => {
            push_vwap_cells(out, venue, "—", "—");
            out.append("  (error: ");
            out.append(message.as_str());
            out.append(")\n");
        },
    }
    assert(out@ =~= old(out)@ + vwap_row(venue, *shown));
}

/// Draws the table of what was traded. The figures come as they are to be
/// shown.
pub fn vwap_table(rows: &Vec<(Venue, Result<DayTexts, String>)>) -> (r: String)
    ensures
        r@ == vwap_head() + vwap_rows(rows@),
{
    let mut out = "Exchange       24h VWAP       24h quote vol\n".to_owned();
    push_rule(&mut out, 44);
    assert(out@ =~= vwap_head());
    let mut i: usize = 0;
    assert(rows@.take(0) =~= Seq::empty());
    assert(out@ =~= vwap_head() + vwap_rows(rows@.take(0)));
    while i < rows.len()
        invariant
            i <= rows@.len(),
            out@ == vwap_head() + vwap_rows(rows@.take(i as int)),
        decreases rows.len() - i,
    {
        assert(rows@.take(i + 1).drop_last() =~= rows@.take(i as int));
        push_vwap_row(&mut out, rows[i].0, &rows[i].1);
        i = i + 1;
        assert(out@ =~= vwap_head() + vwap_rows(rows@.take(i as int)));
    }
    assert(rows@.take(rows@.len() as int) =~= rows@);
    out
}

/// The foot of the table of what was traded.
pub open spec fn vwap_foot_words(n: nat, total: Seq<char>) -> Seq<char> {
    crate::text::run('-', 44) + "\n"@ + crate::text::decimal(n)
        + " sources ok  |  total 24h quote vol "@ + total + "\n"@
}

/// Draws the foot of the table of what was traded.
pub fn vwap_foot(n: usize, total: &str) -> (r: String)
    ensures
        r@ == vwap_foot_words(n as nat, total@),
{
    let mut out = String::new();
    push_rule(&mut out, 44);
    push_decimal(&mut out, n as u64);
    out.append(" sources ok  |  total 24h quote vol ");
    out.append(total);
    out.append("\n");
    assert(out@ =~= vwap_foot_words(n as nat, total@));
    out
}

// ---------------------------------------------------------------------------
// Logs
// ---------------------------------------------------------------------------

/// Where the logs of a run go. Without a path there is no log.
pub struct LogPaths {
    pub results: Option<String>,
    pub errors: Option<String>,
    pub vwap: Option<String>,
}

/// The path of a log: the one asked for, or one with the time at which the run
/// started. There is none where no log is wanted.
pub open spec fn log_path(
    no_log: bool,
    asked: Option<Seq<char>>,
    stem: Seq<char>,
    start: u64,
) -> Option<Seq<char>> {
    if no_log {
        None
    } else {
        match asked {
            Some(path) => Some(path),
            None => Some(stem + crate::text::decimal(start as nat) + ".ndjson"@),
        }
    }
}

fn find_path(no_log: bool, asked: &Option<String>, stem: &str, start: u64) -> (r: Option<String>)
    ensures
        crate::args::opt_text(r) == log_path(
            no_log,
            crate::args::opt_text(*asked),
            stem@,
            start,
        ),
{
    if no_log {
        return None;
    }
    match asked {
        Some(path) => Some(path.clone()),
        None => {
            let mut out = stem.to_owned();
            push_decimal(&mut out, start);
            out.append(".ndjson");
            Some(out)
        },
    }
}

/// Finds where the logs of a run go that started at `start`.
pub fn log_paths(cfg: &Config, start: u64) -> (r: LogPaths)
    ensures
        crate::args::opt_text(r.results) == log_path(
            cfg.no_log,
            cfg@.results_path,
            "results_"@,
            start,
        ),
        crate::args::opt_text(r.errors) == log_path(
            cfg.no_log,
            cfg@.errors_path,
            "error_"@,
            start,
        ),
        crate::args::opt_text(r.vwap) == log_path(cfg.no_log, cfg@.vwap_path, "vwap_"@, start),
{
    LogPaths {
        results: find_path(cfg.no_log, &cfg.results_path, "results_", start),
        errors: find_path(cfg.no_log, &cfg.errors_path, "error_", start),
        vwap: find_path(cfg.no_log, &cfg.vwap_path, "vwap_", start),
    }
}

/// How a single run ends: with a failure where no exchange has a price.
pub fn exit_code(answers: usize) -> (r: i32)
    ensures
        r == (if answers == 0 {
            1int
        } else {
            0int
        }),
{
    if answers == 0 {
        1
    } else {
        0
    }
}

/// What stands above the tables of a continuous run.
pub open spec fn heading_words(now: u64, what: Seq<char>) -> Seq<char> {
    "\n# unix "@ + crate::text::decimal(now as nat) + " ("@ + what + ")\n"@
}

/// Says when a round was asked, and for what.
pub fn heading(now: u64, what: &str) -> (r: String)
    ensures
        r@ == heading_words(now, what@),
{
    let mut out = "\n# unix ".to_owned();
    push_decimal(&mut out, now);
    out.append(" (");
    out.append(what);
    out.append(")\n");
    out
}


// ---------------------------------------------------------------------------
// What a reader finds in a round
// ---------------------------------------------------------------------------

/// The answers and the failures of a round are those of the exchanges, in their
/// order: each exchange with what it answered, or with what it says.
pub proof fn rounds_are_sorted<T>(venues: Seq<Venue>, results: Seq<Result<T, String>>)
    requires
        venues.len() >= results.len(),
    ensures
        answered(venues, results) == Seq::new(
            results.len(),
            |i: int| (venues[i], results[i]),
        ).filter(|r: (Venue, Result<T, String>)| r.1 is Ok).map_values(
            |r: (Venue, Result<T, String>)| (r.0, r.1->Ok_0),
        ),
        failed(venues, results) == Seq::new(
            results.len(),
            |i: int| (venues[i], results[i]),
        ).filter(|r: (Venue, Result<T, String>)| r.1 is Err).map_values(
            |r: (Venue, Result<T, String>)| (r.0, r.1->Err_0),
        ),
    decreases results.len(),
{
    reveal(Seq::filter);
    let good = |r: (Venue, Result<T, String>)| r.1 is Ok;
    let bad = |r: (Venue, Result<T, String>)| r.1 is Err;
    let answer = |r: (Venue, Result<T, String>)| (r.0, r.1->Ok_0);
    let failure = |r: (Venue, Result<T, String>)| (r.0, r.1->Err_0);
    let all = Seq::new(results.len(), |i: int| (venues[i], results[i]));
    if results.len() > 0 {
        let fewer = results.drop_last();
        let some = Seq::new(fewer.len(), |i: int| (venues[i], fewer[i]));
        rounds_are_sorted(venues, fewer);
        assert(all.drop_last() =~= some);
        if good(all.last()) {
            assert(some.filter(good).push(all.last()).map_values(answer) =~= some.filter(
                good,
            ).map_values(answer).push(answer(all.last())));
        } else {
            assert(some.filter(bad).push(all.last()).map_values(failure) =~= some.filter(
                bad,
            ).map_values(failure).push(failure(all.last())));
        }
    } else {
        assert(all.filter(good).map_values(answer) =~= Seq::empty());
        assert(all.filter(bad).map_values(failure) =~= Seq::empty());
    }
}

/// The table of prices has a row for each exchange, in their order.
pub proof fn price_tables_have_a_row_each(rows: Seq<(Venue, Result<String, String>)>)
    ensures
        price_rows(rows) == rows.map_values(
            |r: (Venue, Result<String, String>)| price_row(r.0, r.1),
        ).flatten(),
    decreases rows.len(),
{
    let row = |r: (Venue, Result<String, String>)| price_row(r.0, r.1);
    crate::text::lemma_last_line(rows.map_values(row));
    if rows.len() > 0 {
        price_tables_have_a_row_each(rows.drop_last());
        assert(rows.map_values(row).drop_last() =~= rows.drop_last().map_values(row));
    }
}

/// A row of the table of prices has the name of the exchange, the pair, the price
/// and how far the exchange can be relied on; and where there is no price a dash,
/// and behind the row what the exchange says.
#[verifier::rlimit(60)]
pub proof fn price_rows_have_four_cells(venue: Venue, shown: Result<String, String>) -> (cells: Seq<
    Seq<char>,
>)
    ensures
        cells.len() == 3,
        price_row(venue, shown) == cells[0] + " "@ + cells[1] + " "@ + cells[2] + "  "@
            + crate::live::sources::reliability_words(venue) + (match shown {
            Ok(_) => "\n"@,
            Err(message) => " (error: "@ + message@ + ")\n"@,
        }),
        crate::text::fills_left(cells[0], crate::venue::venue_name(venue), 12),
        crate::text::fills_left(cells[1], crate::live::sources::pair_words(venue), 14),
        crate::text::fills_right(
            cells[2],
            match shown {
                Ok(price) => price@,
                Err(_) => "—"@,
            },
            13,
        ),
{
    let price = match shown {
        Ok(price) => price@,
        Err(_) => "—"@,
    };
    let name = crate::venue::venue_name(venue);
    let pair = crate::live::sources::pair_words(venue);
    crate::text::aligned_texts_fill_their_cells(name, 12);
    crate::text::aligned_texts_fill_their_cells(pair, 14);
    crate::text::aligned_texts_fill_their_cells(price, 13);
    let cells = seq![
        crate::text::left_aligned(name, 12),
        crate::text::left_aligned(pair, 14),
        crate::text::right_aligned(price, 13),
    ];
    assert(price_row(venue, shown) =~= cells[0] + " "@ + cells[1] + " "@ + cells[2] + "  "@
        + crate::live::sources::reliability_words(venue) + (match shown {
        Ok(_) => "\n"@,
        Err(message) => " (error: "@ + message@ + ")\n"@,
    }));
    cells
}

/// The table of what was traded has a row for each exchange, in their order.
pub proof fn vwap_tables_have_a_row_each(rows: Seq<(Venue, Result<DayTexts, String>)>)
    ensures
        vwap_rows(rows) == rows.map_values(
            |r: (Venue, Result<DayTexts, String>)| vwap_row(r.0, r.1),
        ).flatten(),
    decreases rows.len(),
{
    let row = |r: (Venue, Result<DayTexts, String>)| vwap_row(r.0, r.1);
    crate::text::lemma_last_line(rows.map_values(row));
    if rows.len() > 0 {
        vwap_tables_have_a_row_each(rows.drop_last());
        assert(rows.map_values(row).drop_last() =~= rows.drop_last().map_values(row));
    }
}

/// A row of the table of what was traded has the name of the exchange, the
/// weighted price and the volume; and where there is none dashes, and behind the
/// row what the exchange says.
#[verifier::rlimit(60)]
pub proof fn vwap_rows_have_three_cells(venue: Venue, shown: Result<DayTexts, String>) -> (cells: Seq<
    Seq<char>,
>)
    ensures
        cells.len() == 3,
        vwap_row(venue, shown) == cells[0] + " "@ + cells[1] + "  "@ + cells[2] + (match shown {
            Ok(_) => "\n"@,
            Err(message) => "  (error: "@ + message@ + ")\n"@,
        }),
        crate::text::fills_left(cells[0], crate::venue::venue_name(venue), 12),
        crate::text::fills_right(
            cells[1],
            match shown {
                Ok(t) => t.vwap@,
                Err(_) => "—"@,
            },
            10,
        ),
        crate::text::fills_right(
            cells[2],
            match shown {
                Ok(t) => t.quote_volume@,
                Err(_) => "—"@,
            },
            18,
        ),
{
    let price = match shown {
        Ok(t) => t.vwap@,
        Err(_) => "—"@,
    };
    let volume = match shown {
        Ok(t) => t.quote_volume@,
        Err(_) => "—"@,
    };
    let name = crate::venue::venue_name(venue);
    crate::text::aligned_texts_fill_their_cells(name, 12);
    crate::text::aligned_texts_fill_their_cells(price, 10);
    crate::text::aligned_texts_fill_their_cells(volume, 18);
    let cells = seq![
        crate::text::left_aligned(name, 12),
        crate::text::right_aligned(price, 10),
        crate::text::right_aligned(volume, 18),
    ];
    assert(vwap_row(venue, shown) =~= cells[0] + " "@ + cells[1] + "  "@ + cells[2] + (match shown {
        Ok(_) => "\n"@,
        Err(message) => "  (error: "@ + message@ + ")\n"@,
    }));
    cells
}

/// The path that is asked for is the path of the log. Without one, the path has
/// the time at which the run started, so that logs of different runs have
/// different paths.
pub proof fn log_paths_tell_runs_apart(stem: Seq<char>, a: u64, b: u64, asked: Seq<char>)
    ensures
        log_path(false, Some(asked), stem, a) == Some(asked),
        log_path(true, Some(asked), stem, a) is None,
        log_path(true, None, stem, a) is None,
        log_path(false, None, stem, a) matches Some(path) && {
            let at = path.len() - 7;
            &&& path.skip(at) == ".ndjson"@
            &&& path.take(stem.len() as int) == stem
            &&& crate::text::parsed_u64(path.subrange(stem.len() as int, at)) == Ok::<
                u64,
                crate::text::IntError,
            >(a)
        },
        log_path(false, None, stem, a) == log_path(false, None, stem, b) ==> a == b,
{
    reveal_strlit(".ndjson");
    crate::text::decimal_reads_back(a);
    crate::text::decimal_reads_back(b);
    let x = stem + crate::text::decimal(a as nat) + ".ndjson"@;
    let y = stem + crate::text::decimal(b as nat) + ".ndjson"@;
    assert(x.skip(x.len() - 7) =~= ".ndjson"@);
    assert(x.take(stem.len() as int) =~= stem);
    assert(x.subrange(stem.len() as int, x.len() - 7) =~= crate::text::decimal(a as nat));
    assert(y.subrange(stem.len() as int, y.len() - 7) =~= crate::text::decimal(b as nat));
}


/// The foot of the table of prices says how many exchanges have one, and then the
/// lowest, the highest and the spread.
pub proof fn feet_tell_the_spread(
    n: u64,
    low: Seq<char>,
    high: Seq<char>,
    spread: Seq<char>,
) -> (number: Seq<char>)
    ensures
        price_foot_words(n as nat, low, high, spread) == price_rule() + number
            + " sources ok  |  min "@ + low + "  max "@ + high + "  spread "@ + spread + " bps\n"@,
        crate::text::parsed_u64(number) == Ok::<u64, crate::text::IntError>(n),
{
    crate::text::decimal_reads_back(n);
    crate::text::decimal(n as nat)
}

/// A heading says when a round was asked, and for what.
pub proof fn headings_tell_the_time(now: u64, what: Seq<char>) -> (number: Seq<char>)
    ensures
        heading_words(now, what) == "\n# unix "@ + number + " ("@ + what + ")\n"@,
        crate::text::parsed_u64(number) == Ok::<u64, crate::text::IntError>(now),
{
    crate::text::decimal_reads_back(now);
    crate::text::decimal(now as nat)
}

} // verus!
