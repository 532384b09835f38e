//! The lines that are written of a window: its closes and its episodes.

use serde_json::Value;

use vstd::prelude::*;

use crate::backfill::aligned_line;
use crate::clock::iso8601;
use crate::divergence::analysis::{band_label, Episode, STEP};
use crate::grid::Row;
use crate::json::{count_value, text_value, Json};
use crate::ndjson::cells_line;
use crate::number::Num;
use crate::venue::with_minutes;

verus! {

/// Whether some values are what JSON has for the closes of a slot.
pub open spec fn are_closes(values: Seq<Value>, cells: Seq<(usize, Num)>) -> bool {
    forall|k: int|
        0 <= k < values.len() ==> crate::json::json_of(#[trigger] values[k])
            == crate::divergence::round_trip::price_json(cells[k].1)
}

/// Writes the closes of a slot as a line. `values` holds what the line is to
/// show of each close. Where that is what JSON has for it, the line reads back.
pub fn closes_line(row: &Row<Num>, values: Vec<Value>) -> (r: String)
    requires
        values@.len() == row.cells@.len(),
        forall|k: int|
            0 <= k < row.cells@.len() ==> (#[trigger] row.cells@[k]).0
                < crate::venue::minute_venues().len(),
    ensures
        r@ == crate::ndjson::line(
            crate::ndjson::row(
                row.ts,
                crate::ndjson::by_name(
                    crate::backfill::shown_cells(
                        crate::venue::minute_venues(),
                        row.cells@,
                        values@,
                    ),
                ),
            ),
        ),
        crate::ndjson::is_one_line(
            crate::ndjson::row(
                row.ts,
                crate::ndjson::by_name(
                    crate::backfill::shown_cells(
                        crate::venue::minute_venues(),
                        row.cells@,
                        values@,
                    ),
                ),
            ),
        ),
        are_closes(values@, row.cells@) ==> r@ == crate::ndjson::line(
            crate::divergence::round_trip::row_entries(row@),
        ) && crate::divergence::round_trip::is_good_line(row@),
{
    let venues = with_minutes();
    proof {
        if are_closes(values@, row.cells@) {
            let shown = crate::backfill::shown_cells(venues@, row.cells@, values@);
            assert(crate::ndjson::by_name(shown) =~= crate::divergence::round_trip::prices_json(
                row.cells@,
            ));
            crate::divergence::round_trip::price_rows_are_shallow(row@);
        }
    }
    aligned_line(&venues, row, values)
}

/// What a log shows of an episode.
pub open spec fn occurrence_cells(e: Episode, percent: Json, price: Json, mean: Json) -> Seq<
    (Seq<char>, Json),
> {
    seq![
        ("band"@, Json::Text(crate::divergence::analysis::band_words(e.band as int))),
        ("start_ts"@, Json::Count(e.start_ts)),
        ("end_ts"@, Json::Count(e.end_ts)),
        ("start_utc"@, Json::Text(crate::clock::iso8601_text(e.start_ts as nat))),
        ("end_utc"@, Json::Text(crate::clock::iso8601_text(e.end_ts as nat))),
        ("duration_min"@, Json::Count(((e.end_ts - e.start_ts) / STEP as int) as u64)),
        ("peak_pct"@, percent),
        ("peak_ts"@, Json::Count(e.peak_ts)),
        ("peak_utc"@, Json::Text(crate::clock::iso8601_text(e.peak_ts as nat))),
        (
            "peak_venue"@,
            Json::Text(
                crate::venue::venue_name(crate::venue::minute_venues()[e.peak_venue as int]),
            ),
        ),
        ("peak_price"@, price),
        ("mean_at_peak"@, mean),
        ("venues_at_peak"@, Json::Count(e.venues_at_peak as u64)),
    ]
}

proof fn lemma_occurrence_keys(e: Episode, percent: Json, price: Json, mean: Json)
    ensures
        crate::json::has_distinct_keys(occurrence_cells(e, percent, price, mean)),
{
    let cells = occurrence_cells(e, percent, price, mean);
    reveal_strlit("band");
    reveal_strlit("start_ts");
    reveal_strlit("end_ts");
    reveal_strlit("start_utc");
    reveal_strlit("end_utc");
    reveal_strlit("duration_min");
    reveal_strlit("peak_pct");
    reveal_strlit("peak_ts");
    reveal_strlit("peak_utc");
    reveal_strlit("peak_venue");
    reveal_strlit("peak_price");
    reveal_strlit("mean_at_peak");
    reveal_strlit("venues_at_peak");
    assert forall|i: int, j: int| 0 <= i < j < cells.len() implies (#[trigger] cells[i]).0 != (
    #[trigger] cells[j]).0 by {
        assert(cells[i].0.len() != cells[j].0.len() || cells[i].0[0] != cells[j].0[0]
            || cells[i].0[5] != cells[j].0[5]);
    }
}

/// Writes an episode as a line. The values are what the line is to show of the
/// divergence, the price and the mean at the peak.
pub fn occurrence_line(e: &Episode, percent: Value, price: Value, mean: Value) -> (r: String)
    requires
        e.start_ts <= e.end_ts,
        e.peak_venue < crate::venue::minute_venues().len(),
    ensures
        r@ == crate::ndjson::line(
            occurrence_cells(
                *e,
                crate::json::json_of(percent),
                crate::json::json_of(price),
                crate::json::json_of(mean),
            ),
        ),
        crate::ndjson::is_faithful(
            occurrence_cells(
                *e,
                crate::json::json_of(percent),
                crate::json::json_of(price),
                crate::json::json_of(mean),
            ),
        ),
{
    let venues = with_minutes();
    let minutes: u64 = (e.end_ts - e.start_ts) / STEP;
    let cells: Vec<(String, Value)> = vec![
        ("band".to_owned(), text_value(band_label(e.band).to_owned())),
        ("start_ts".to_owned(), count_value(e.start_ts)),
        ("end_ts".to_owned(), count_value(e.end_ts)),
        ("start_utc".to_owned(), text_value(iso8601(e.start_ts))),
        ("end_utc".to_owned(), text_value(iso8601(e.end_ts))),
        ("duration_min".to_owned(), count_value(minutes)),
        ("peak_pct".to_owned(), percent),
        ("peak_ts".to_owned(), count_value(e.peak_ts)),
        ("peak_utc".to_owned(), text_value(iso8601(e.peak_ts))),
        ("peak_venue".to_owned(), text_value(venues[e.peak_venue].name().to_owned())),
        ("peak_price".to_owned(), price),
        ("mean_at_peak".to_owned(), mean),
        ("venues_at_peak".to_owned(), count_value(e.venues_at_peak as u64)),
    ];
    proof {
        let goal = occurrence_cells(
            *e,
            crate::json::json_of(percent),
            crate::json::json_of(price),
            crate::json::json_of(mean),
        );
        assert(crate::ndjson::named(cells@) =~= goal);
        lemma_occurrence_keys(
            *e,
            crate::json::json_of(percent),
            crate::json::json_of(price),
            crate::json::json_of(mean),
        );
        crate::ndjson::filled_with_distinct_keys(goal);
    }
    cells_line(cells)
}


/// A log says of an episode its band, when it started and ended and when it
/// peaked, each as a number and as a date, how many whole minutes it lasted, and
/// what is known of its peak.
#[verifier::rlimit(60)]
pub proof fn occurrences_say_what_happened(e: Episode, percent: Json, price: Json, mean: Json)
    requires
        e.start_ts <= e.end_ts,
        e.peak_venue < crate::venue::minute_venues().len(),
    ensures
        ({
            let said = |key: Seq<char>|
                crate::json::lookup(occurrence_cells(e, percent, price, mean), key);
            &&& said("band"@) == Some(
                Json::Text(crate::divergence::analysis::band_words(e.band as int)),
            )
            &&& said("start_ts"@) == Some(Json::Count(e.start_ts))
            &&& said("end_ts"@) == Some(Json::Count(e.end_ts))
            &&& said("peak_ts"@) == Some(Json::Count(e.peak_ts))
            &&& e.start_ts <= crate::clock::LAST ==> (said("start_utc"@) matches Some(Json::Text(t))
                && crate::clock::is_stamp(t) && crate::clock::time_in(t) == e.start_ts)
            &&& e.end_ts <= crate::clock::LAST ==> (said("end_utc"@) matches Some(Json::Text(t))
                && crate::clock::is_stamp(t) && crate::clock::time_in(t) == e.end_ts)
            &&& e.peak_ts <= crate::clock::LAST ==> (said("peak_utc"@) matches Some(Json::Text(t))
                && crate::clock::is_stamp(t) && crate::clock::time_in(t) == e.peak_ts)
            &&& said("duration_min"@) matches Some(Json::Count(m)) && m * 60 <= e.end_ts
                - e.start_ts < (m + 1) * 60
            &&& said("peak_pct"@) == Some(percent)
            &&& said("peak_venue"@) == Some(
                Json::Text(
                    crate::venue::venue_name(crate::venue::minute_venues()[e.peak_venue as int]),
                ),
            )
            &&& said("peak_price"@) == Some(price)
            &&& said("mean_at_peak"@) == Some(mean)
            &&& said("venues_at_peak"@) == Some(Json::Count(e.venues_at_peak as u64))
        }),
{
    let cells = occurrence_cells(e, percent, price, mean);
    lemma_occurrence_keys(e, percent, price, mean);
    crate::divergence::round_trip::lemma_lookup(cells, "band"@, 0);
    crate::divergence::round_trip::lemma_lookup(cells, "start_ts"@, 1);
    crate::divergence::round_trip::lemma_lookup(cells, "end_ts"@, 2);
    crate::divergence::round_trip::lemma_lookup(cells, "start_utc"@, 3);
    crate::divergence::round_trip::lemma_lookup(cells, "end_utc"@, 4);
    crate::divergence::round_trip::lemma_lookup(cells, "duration_min"@, 5);
    crate::divergence::round_trip::lemma_lookup(cells, "peak_pct"@, 6);
    crate::divergence::round_trip::lemma_lookup(cells, "peak_ts"@, 7);
    crate::divergence::round_trip::lemma_lookup(cells, "peak_utc"@, 8);
    crate::divergence::round_trip::lemma_lookup(cells, "peak_venue"@, 9);
    crate::divergence::round_trip::lemma_lookup(cells, "peak_price"@, 10);
    crate::divergence::round_trip::lemma_lookup(cells, "mean_at_peak"@, 11);
    crate::divergence::round_trip::lemma_lookup(cells, "venues_at_peak"@, 12);
    if e.start_ts <= crate::clock::LAST {
        crate::clock::iso8601_reads_back(e.start_ts);
    }
    if e.end_ts <= crate::clock::LAST {
        crate::clock::iso8601_reads_back(e.end_ts);
    }
    if e.peak_ts <= crate::clock::LAST {
        crate::clock::iso8601_reads_back(e.peak_ts);
    }
}

/// Two episodes with the same line, which reads back, started, peaked and ended
/// at the same time, at the same exchange and with the same figures.
#[verifier::rlimit(60)]
pub proof fn occurrences_tell_episodes_apart(
    e: Episode,
    f: Episode,
    shown_of_e: (Json, Json, Json),
    shown_of_f: (Json, Json, Json),
)
    requires
        e.start_ts <= e.end_ts,
        f.start_ts <= f.end_ts,
        e.peak_venue < crate::venue::minute_venues().len(),
        f.peak_venue < crate::venue::minute_venues().len(),
        ({
            let x = occurrence_cells(e, shown_of_e.0, shown_of_e.1, shown_of_e.2);
            let y = occurrence_cells(f, shown_of_f.0, shown_of_f.1, shown_of_f.2);
            &&& crate::ndjson::reads_back(x)
            &&& crate::ndjson::reads_back(y)
            &&& crate::ndjson::line(x) == crate::ndjson::line(y)
        }),
    ensures
        (e.start_ts, e.end_ts, e.peak_ts) == (f.start_ts, f.end_ts, f.peak_ts),
        e.peak_venue == f.peak_venue,
        e.venues_at_peak == f.venues_at_peak,
        shown_of_e == shown_of_f,
{
    let x = occurrence_cells(e, shown_of_e.0, shown_of_e.1, shown_of_e.2);
    let y = occurrence_cells(f, shown_of_f.0, shown_of_f.1, shown_of_f.2);
    reveal_strlit("\n");
    assert(crate::ndjson::line(x).drop_last() =~= crate::json::object_text(x));
    assert(crate::ndjson::line(y).drop_last() =~= crate::json::object_text(y));
    assert(x == y);
    occurrences_say_what_happened(e, shown_of_e.0, shown_of_e.1, shown_of_e.2);
    occurrences_say_what_happened(f, shown_of_f.0, shown_of_f.1, shown_of_f.2);
    let venues = crate::venue::minute_venues();
    crate::venue::names_are_distinct(
        venues[e.peak_venue as int],
        venues[f.peak_venue as int],
    );
}

} // verus!
