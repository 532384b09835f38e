//! The lines of the logs: one JSON object per line.

use serde_json::{Map as Object, Value};

use vstd::prelude::*;
use vstd::string::*;

use crate::json::{
    count_value, empty_object, insert, object_line, object_value, text_value, Json,
};
use crate::venue::Venue;

verus! {

/// The entries with some keys set one after the other.
pub open spec fn filled(
    entries: Seq<(Seq<char>, Json)>,
    cells: Seq<(Seq<char>, Json)>,
) -> Seq<(Seq<char>, Json)>
    decreases cells.len(),
{
    if cells.len() == 0 {
        entries
    } else {
        crate::json::with_entry(
            filled(entries, cells.drop_last()),
            cells.last().0,
            cells.last().1,
        )
    }
}

/// The entries of a row at the time `ts`: the time under `ts`, and then the
/// cells.
pub open spec fn row(ts: u64, cells: Seq<(Seq<char>, Json)>) -> Seq<(Seq<char>, Json)> {
    filled(seq![("ts"@, Json::Count(ts))], cells)
}

/// The line of an object, with the end of the line.
pub open spec fn line(entries: Seq<(Seq<char>, Json)>) -> Seq<char> {
    crate::json::object_text(entries) + "\n"@
}

/// Whether the text of an object reads back as the same object, and is not
/// blank.
pub open spec fn reads_back(entries: Seq<(Seq<char>, Json)>) -> bool {
    let text = crate::json::object_text(entries);
    crate::json::parsed_object(text) == Some(entries) && !crate::text::is_blank(text)
}

/// Whether the text of an object holds no line break.
pub open spec fn is_one_line(entries: Seq<(Seq<char>, Json)>) -> bool {
    !crate::json::object_text(entries).contains('\n')
}

/// Whether the text of an object is a single line, and reads back where the
/// object is not too deep.
pub open spec fn is_faithful(entries: Seq<(Seq<char>, Json)>) -> bool {
    is_one_line(entries) && (crate::json::is_shallow(entries) ==> reads_back(entries))
}

/// Cells with a time in front that none of them sets again are the row.
pub proof fn row_of_distinct_keys(ts: u64, cells: Seq<(Seq<char>, Json)>)
    requires
        crate::json::has_distinct_keys(cells),
        !crate::json::has_key(cells, "ts"@),
    ensures
        row(ts, cells) == seq![("ts"@, Json::Count(ts))] + cells,
    decreases cells.len(),
{
    let head = seq![("ts"@, Json::Count(ts))];
    if cells.len() > 0 {
        let before = cells.drop_last();
        let last = cells.last();
        assert forall|i: int| 0 <= i < before.len() implies (#[trigger] before[i]).0 != "ts"@ by {
            assert(before[i] == cells[i]);
        }
        assert(crate::json::has_distinct_keys(before)) by {
            assert forall|i: int, j: int| 0 <= i < j < before.len() implies (
            #[trigger] before[i]).0 != (#[trigger] before[j]).0 by {
                assert(before[i] == cells[i] && before[j] == cells[j]);
            }
        }
        row_of_distinct_keys(ts, before);
        let so_far = head + before;
        assert(!crate::json::has_key(so_far, last.0)) by {
            assert forall|i: int| 0 <= i < so_far.len() implies (#[trigger] so_far[i]).0
                != last.0 by {
                if i > 0 {
                    assert(so_far[i] == cells[i - 1]);
                } else {
                    assert(cells[cells.len() - 1] == last);
                }
            }
        }
        assert(so_far.push(last) =~= head + cells);
    } else {
        assert(head + cells =~= head);
    }
}

/// Keys that all differ, set one after the other, are the object.
pub proof fn filled_with_distinct_keys(cells: Seq<(Seq<char>, Json)>)
    requires
        crate::json::has_distinct_keys(cells),
    ensures
        filled(Seq::empty(), cells) == cells,
    decreases cells.len(),
{
    if cells.len() > 0 {
        let before = cells.drop_last();
        assert(crate::json::has_distinct_keys(before)) by {
            assert forall|i: int, j: int| 0 <= i < j < before.len() implies (
            #[trigger] before[i]).0 != (#[trigger] before[j]).0 by {
                assert(before[i] == cells[i] && before[j] == cells[j]);
            }
        }
        filled_with_distinct_keys(before);
        assert(!crate::json::has_key(before, cells.last().0)) by {
            assert forall|i: int| 0 <= i < before.len() implies (#[trigger] before[i]).0
                != cells.last().0 by {
                assert(before[i] == cells[i]);
                assert(cells.last() == cells[cells.len() - 1]);
            }
        }
        assert(before.push(cells.last()) =~= cells);
    } else {
        assert(cells =~= Seq::empty());
    }
}

proof fn lemma_filled_is_shallow(start: Seq<(Seq<char>, Json)>, cells: Seq<(Seq<char>, Json)>)
    requires
        crate::json::is_shallow(start),
        crate::json::is_shallow(cells),
    ensures
        crate::json::is_shallow(filled(start, cells)),
    decreases cells.len(),
{
    if cells.len() > 0 {
        let rest = cells.drop_last();
        let n = crate::json::NESTING as nat;
        assert forall|i: int| 0 <= i < rest.len() implies crate::json::nests_within(
            (#[trigger] rest[i]).1,
            n,
        ) by {
            assert(rest[i] == cells[i]);
        }
        lemma_filled_is_shallow(start, rest);
        let before = filled(start, rest);
        let after = filled(start, cells);
        let last = cells.last();
        assert(last == cells[cells.len() - 1]);
        assert forall|i: int| 0 <= i < after.len() implies crate::json::nests_within(
            (#[trigger] after[i]).1,
            n,
        ) by {
            if crate::json::has_key(before, last.0) {
                assert(before[i].0 == last.0 || after[i] == before[i]);
            } else if i < before.len() {
                assert(after[i] == before[i]);
            }
        }
    }
}

/// A row whose cells can be read can be read.
pub proof fn rows_of_shallow_cells(ts: u64, cells: Seq<(Seq<char>, Json)>)
    requires
        crate::json::is_shallow(cells),
    ensures
        crate::json::is_shallow(row(ts, cells)),
{
    lemma_filled_is_shallow(seq![("ts"@, Json::Count(ts))], cells);
}

// ---------------------------------------------------------------------------
// Lines of a file
// ---------------------------------------------------------------------------

/// A text taken apart at its line breaks: the lines that are ended by one, and
/// what stands behind the last.
#[verifier::ext_equal]
pub struct Broken {
    pub ended: Seq<Seq<char>>,
    pub rest: Seq<char>,
}

/// Takes a text apart at its line breaks.
pub open spec fn broken(text: Seq<char>) -> Broken
    decreases text.len(),
{
    if text.len() == 0 {
        Broken { ended: Seq::empty(), rest: Seq::empty() }
    } else {
        let before = broken(text.drop_last());
        if text.last() == '\n' {
            Broken { ended: before.ended.push(before.rest), rest: Seq::empty() }
        } else {
            Broken { ended: before.ended, rest: before.rest.push(text.last()) }
        }
    }
}

/// What the lines of some objects add up to.
pub open spec fn written(objects: Seq<Seq<(Seq<char>, Json)>>) -> Seq<char>
    decreases objects.len(),
{
    if objects.len() == 0 {
        Seq::empty()
    } else {
        written(objects.drop_last()) + line(objects.last())
    }
}

/// The texts of some objects.
pub open spec fn object_texts(objects: Seq<Seq<(Seq<char>, Json)>>) -> Seq<Seq<char>> {
    objects.map_values(|o: Seq<(Seq<char>, Json)>| crate::json::object_text(o))
}

proof fn lemma_broken_without_break(start: Seq<char>, text: Seq<char>)
    requires
        !text.contains('\n'),
    ensures
        broken(start + text).ended == broken(start).ended,
        broken(start + text).rest == broken(start).rest + text,
    decreases text.len(),
{
    if text.len() == 0 {
        assert(start + text =~= start);
        assert(broken(start).rest + text =~= broken(start).rest);
    } else {
        let shorter = text.drop_last();
        assert forall|c: char| shorter.contains(c) implies text.contains(c) by {
            let i = choose|i: int| 0 <= i < shorter.len() && shorter[i] == c;
            assert(text[i] == c);
        }
        lemma_broken_without_break(start, shorter);
        assert(text.contains(text.last())) by {
            assert(text[text.len() - 1] == text.last());
        }
        assert((start + text).drop_last() =~= start + shorter);
        assert((start + text).last() == text.last());
        assert((broken(start).rest + shorter).push(text.last()) =~= broken(start).rest + text);
    }
}

/// The lines of objects that are written behind whole lines come apart again:
/// one line for each object, which is the text of the object and reads back as
/// it.
pub proof fn each_object_is_a_line(start: Seq<char>, objects: Seq<Seq<(Seq<char>, Json)>>)
    requires
        broken(start).rest.len() == 0,
        forall|i: int| 0 <= i < objects.len() ==> is_one_line(#[trigger] objects[i]),
    ensures
        broken(start + written(objects)).ended == broken(start).ended + object_texts(objects),
        broken(start + written(objects)).rest.len() == 0,
        forall|i: int|
            0 <= i < objects.len() && reads_back(#[trigger] objects[i])
                ==> crate::json::parsed_object(
                broken(start + written(objects)).ended[broken(start).ended.len() + i],
            ) == Some(objects[i]),
    decreases objects.len(),
{
    reveal_strlit("\n");
    if objects.len() == 0 {
        assert(start + written(objects) =~= start);
        assert(broken(start).ended + object_texts(objects) =~= broken(start).ended);
    } else {
        let fewer = objects.drop_last();
        let last = objects.last();
        assert forall|i: int| 0 <= i < fewer.len() implies is_one_line(#[trigger] fewer[i]) by {
            assert(fewer[i] == objects[i]);
        }
        each_object_is_a_line(start, fewer);
        let before = start + written(fewer);
        let text = crate::json::object_text(last);
        assert(last == objects[objects.len() - 1]);
        lemma_broken_without_break(before, text);
        let whole = start + written(objects);
        assert(whole.drop_last() =~= before + text);
        assert(whole.last() == '\n');
        assert(broken(before).rest + text =~= text);
        assert(object_texts(objects) =~= object_texts(fewer).push(text));
        assert(broken(whole).ended =~= broken(start).ended + object_texts(objects));
        assert forall|i: int|
            0 <= i < objects.len() && reads_back(#[trigger] objects[i])
                implies crate::json::parsed_object(
            broken(whole).ended[broken(start).ended.len() + i],
        ) == Some(objects[i]) by {
            assert(broken(whole).ended[broken(start).ended.len() + i] == object_texts(objects)[i]);
        }
    }
}

/// Writes an object as a line, with the end of the line.
pub fn write_line(obj: &Object<String, Value>) -> (r: String)
    ensures
        r@ == line(crate::json::entries(*obj)),
        is_faithful(crate::json::entries(*obj)),
{
    match object_line(obj) {
        Ok(s) => {
            let mut out = s;
            assert(!crate::text::is_white_space(out@[0]));
            out.append("\n");
            out
        },
        Err(_) => {
            assert(false);
            String::new()
        },
    }
}

/// The cells by their names, each with what its value is.
pub open spec fn named(cells: Seq<(String, Value)>) -> Seq<(Seq<char>, Json)> {
    cells.map_values(|c: (String, Value)| (c.0@, crate::json::json_of(c.1)))
}

proof fn lemma_one_more(
    cells: Seq<(String, Value)>,
    cell: (String, Value),
    all: Seq<(Seq<char>, Json)>,
    i: int,
)
    requires
        0 <= i < all.len(),
        named(cells) == all.take(i),
        all[i] == (cell.0@, crate::json::json_of(cell.1)),
    ensures
        named(cells.push(cell)) == all.take(i + 1),
{
    assert(named(cells.push(cell)) =~= named(cells).push(all[i]));
    assert(all.take(i + 1) =~= all.take(i).push(all[i]));
}

fn filled_object(start: Object<String, Value>, cells: Vec<(String, Value)>) -> (r: Object<
    String,
    Value,
>)
    ensures
        crate::json::entries(r) == filled(crate::json::entries(start), named(cells@)),
{
    let ghost head = crate::json::entries(start);
    let mut obj = start;
    let ghost all = named(cells@);
    assert(all.take(0) =~= Seq::empty());
    for cell in it: cells
        invariant
            it.seq() == cells@,
            all == named(cells@),
            crate::json::entries(obj) == filled(head, all.take(it.index() as int)),
    {
        let ghost i = it.index() as int;
        assert(all.take(i + 1).drop_last() =~= all.take(i));
        assert(all.take(i + 1).last() == all[i]);
        let (name, value) = cell;
        insert(&mut obj, name, value);
    }
    assert(all.take(all.len() as int) =~= all);
    obj
}

/// Writes a row as a line.
pub fn row_line(ts: u64, cells: Vec<(String, Value)>) -> (r: String)
    ensures
        r@ == line(row(ts, named(cells@))),
        is_faithful(row(ts, named(cells@))),
{
    let mut obj = empty_object();
    insert(&mut obj, "ts".to_owned(), count_value(ts));
    assert(crate::json::entries(obj) =~= seq![("ts"@, Json::Count(ts))]);
    write_line(&filled_object(obj, cells))
}

/// Writes an object with some keys as a line.
pub fn cells_line(cells: Vec<(String, Value)>) -> (r: String)
    ensures
        r@ == line(filled(Seq::empty(), named(cells@))),
        is_faithful(filled(Seq::empty(), named(cells@))),
{
    write_line(&filled_object(empty_object(), cells))
}

/// The cells of some exchanges, each under the name of the exchange.
pub open spec fn by_name(cells: Seq<(Venue, Value)>) -> Seq<(Seq<char>, Json)> {
    cells.map_values(
        |c: (Venue, Value)| (crate::venue::venue_name(c.0), crate::json::json_of(c.1)),
    )
}

/// Writes the prices of some exchanges as a line.
pub fn results_line(ts: u64, prices: Vec<(Venue, Value)>) -> (r: String)
    ensures
        r@ == line(row(ts, by_name(prices@))),
        is_faithful(row(ts, by_name(prices@))),
{
    let ghost all = by_name(prices@);
    let mut cells: Vec<(String, Value)> = Vec::new();
    for price in it: prices
        invariant
            it.seq() == prices@,
            all == by_name(prices@),
            named(cells@) == all.take(it.index() as int),
    {
        let (venue, value) = price;
        let cell = (venue.name().to_owned(), value);
        proof {
            lemma_one_more(cells@, cell, all, it.index() as int);
        }
        cells.push(cell);
    }
    assert(all.take(all.len() as int) =~= all);
    row_line(ts, cells)
}

/// The prices of exchanges of which none occurs twice stand behind the time in
/// their order.
pub proof fn prices_follow_the_time(ts: u64, prices: Seq<(Venue, Value)>)
    requires
        forall|i: int, j: int|
            0 <= i < j < prices.len() ==> (#[trigger] prices[i]).0 != (#[trigger] prices[j]).0,
    ensures
        row(ts, by_name(prices)) == seq![("ts"@, Json::Count(ts))] + by_name(prices),
{
    let cells = by_name(prices);
    assert forall|i: int, j: int| 0 <= i < j < cells.len() implies (#[trigger] cells[i]).0 != (
    #[trigger] cells[j]).0 by {
        crate::venue::names_are_distinct(prices[i].0, prices[j].0);
    }
    assert forall|i: int| 0 <= i < cells.len() implies (#[trigger] cells[i]).0 != "ts"@ by {
        crate::venue::names_are_distinct(prices[i].0, prices[i].0);
    }
    row_of_distinct_keys(ts, cells);
}

/// The messages of some exchanges, each under the name of the exchange with
/// `prefix` in front.
pub open spec fn messages(errors: Seq<(Venue, String)>, prefix: Seq<char>) -> Seq<
    (Seq<char>, Json),
> {
    errors.map_values(
        |e: (Venue, String)| (prefix + crate::venue::venue_name(e.0), Json::Text(e.1@)),
    )
}

fn messages_line(ts: u64, errors: Vec<(Venue, String)>, prefix: &str) -> (r: Option<String>)
    ensures
        r is Some <==> errors@.len() > 0,
        r matches Some(s) ==> s@ == line(row(ts, messages(errors@, prefix@))),
        r is Some ==> is_one_line(row(ts, messages(errors@, prefix@))) && reads_back(
            row(ts, messages(errors@, prefix@)),
        ),
{
    if errors.len() == 0 {
        return None;
    }
    let ghost all = messages(errors@, prefix@);
    let mut cells: Vec<(String, Value)> = Vec::new();
    for error in it: errors
        invariant
            it.seq() == errors@,
            all == messages(errors@, prefix@),
            named(cells@) == all.take(it.index() as int),
    {
        let (venue, message) = error;
        let mut key = prefix.to_owned();
        key.append(venue.name());
        let cell = (key, text_value(message));
        proof {
            lemma_one_more(cells@, cell, all, it.index() as int);
        }
        cells.push(cell);
    }
    assert(all.take(all.len() as int) =~= all);
    proof {
        rows_of_shallow_cells(ts, all);
    }
    Some(row_line(ts, cells))
}

/// Writes the failures of some exchanges as a line. Without a failure there is
/// no line.
pub fn errors_line(ts: u64, errors: Vec<(Venue, String)>) -> (r: Option<String>)
    ensures
        r is Some <==> errors@.len() > 0,
        r matches Some(s) ==> s@ == line(row(ts, messages(errors@, Seq::empty()))),
        r is Some ==> is_one_line(row(ts, messages(errors@, Seq::empty()))) && reads_back(
            row(ts, messages(errors@, Seq::empty())),
        ),
{
    proof {
        reveal_strlit("");
        assert(""@ =~= Seq::<char>::empty());
    }
    messages_line(ts, errors, "")
}

/// Writes the failures of some exchanges to give their volume-weighted price as
/// a line, which marks them as such. Without a failure there is no line.
pub fn vwap_errors_line(ts: u64, errors: Vec<(Venue, String)>) -> (r: Option<String>)
    ensures
        r is Some <==> errors@.len() > 0,
        r matches Some(s) ==> s@ == line(row(ts, messages(errors@, "vwap:"@))),
        r is Some ==> is_one_line(row(ts, messages(errors@, "vwap:"@))) && reads_back(
            row(ts, messages(errors@, "vwap:"@)),
        ),
{
    messages_line(ts, errors, "vwap:")
}

/// In a log that holds both, no failure to give a volume-weighted price has the
/// key of a failure to give a price, and no two exchanges share a key.
pub proof fn failure_kinds_differ(a: Venue, b: Venue)
    ensures
        "vwap:"@ + crate::venue::venue_name(a) != crate::venue::venue_name(b),
        "vwap:"@ + crate::venue::venue_name(a) == "vwap:"@ + crate::venue::venue_name(b) ==> a == b,
        "vwap:"@ + crate::venue::venue_name(a) != "ts"@,
{
    let prefix = "vwap:"@;
    let marked = prefix + crate::venue::venue_name(a);
    reveal_strlit("vwap:");
    reveal_strlit("ts");
    assert(marked[0] == 'v' && "ts"@[0] == 't');
    assert(crate::venue::venue_name(b)[0] != 'v') by {
        reveal_strlit("Binance");
        reveal_strlit("OKX");
        reveal_strlit("Coinbase");
        reveal_strlit("Kraken");
        reveal_strlit("Bybit");
        reveal_strlit("KuCoin");
        reveal_strlit("Crypto.com");
        reveal_strlit("Gate.io");
    }
    if marked == prefix + crate::venue::venue_name(b) {
        assert(marked.skip(5) =~= crate::venue::venue_name(a));
        assert((prefix + crate::venue::venue_name(b)).skip(5) =~= crate::venue::venue_name(b));
        crate::venue::names_are_distinct(a, b);
    }
}

/// The volume-weighted price of an exchange, and the volume it is weighted by.
pub struct VwapSample {
    pub vwap: Value,
    /// The volume in the quote currency.
    pub quote_volume: Value,
}

/// What a log shows of a volume-weighted price.
pub open spec fn sample_json(s: VwapSample) -> Json {
    Json::Object(
        seq![
            ("vwap"@, crate::json::json_of(s.vwap)),
            ("volume"@, crate::json::json_of(s.quote_volume)),
        ],
    )
}

/// The volume-weighted prices of some exchanges, each under the name of the
/// exchange.
pub open spec fn samples_by_name(samples: Seq<(Venue, VwapSample)>) -> Seq<(Seq<char>, Json)> {
    samples.map_values(
        |s: (Venue, VwapSample)| (crate::venue::venue_name(s.0), sample_json(s.1)),
    )
}

/// Whether no figure is an array or an object.
pub open spec fn are_plain(samples: Seq<(Venue, VwapSample)>) -> bool {
    forall|i: int|
        0 <= i < samples.len() ==> crate::json::is_scalar(
            crate::json::json_of((#[trigger] samples[i]).1.vwap),
        ) && crate::json::is_scalar(crate::json::json_of(samples[i].1.quote_volume))
}

fn sample_value(s: VwapSample) -> (r: Value)
    ensures
        crate::json::json_of(r) == sample_json(s),
{
    let mut obj = empty_object();
    insert(&mut obj, "vwap".to_owned(), s.vwap);
    insert(&mut obj, "volume".to_owned(), s.quote_volume);
    proof {
        reveal_strlit("vwap");
        reveal_strlit("volume");
        assert("vwap"@.len() != "volume"@.len());
        assert(crate::json::entries(obj) =~= seq![
            ("vwap"@, crate::json::json_of(s.vwap)),
            ("volume"@, crate::json::json_of(s.quote_volume)),
        ]);
    }
    object_value(obj)
}

/// Writes the volume-weighted prices of some exchanges as a line.
pub fn vwap_results_line(ts: u64, samples: Vec<(Venue, VwapSample)>) -> (r: String)
    ensures
        r@ == line(row(ts, samples_by_name(samples@))),
        is_faithful(row(ts, samples_by_name(samples@))),
        are_plain(samples@) ==> reads_back(row(ts, samples_by_name(samples@))),
{
    let ghost all = samples_by_name(samples@);
    let mut cells: Vec<(String, Value)> = Vec::new();
    for sample in it: samples
        invariant
            it.seq() == samples@,
            all == samples_by_name(samples@),
            named(cells@) == all.take(it.index() as int),
    {
        let (venue, s) = sample;
        let cell = (venue.name().to_owned(), sample_value(s));
        proof {
            lemma_one_more(cells@, cell, all, it.index() as int);
        }
        cells.push(cell);
    }
    assert(all.take(all.len() as int) =~= all);
    proof {
        if are_plain(samples@) {
            assert forall|i: int| 0 <= i < all.len() implies crate::json::nests_within(
                (#[trigger] all[i]).1,
                crate::json::NESTING as nat,
            ) by {
                let sample = samples@[i].1;
                reveal_with_fuel(crate::json::nests_within, 2);
                assert(crate::json::is_scalar(crate::json::json_of(sample.vwap)));
                assert(crate::json::is_scalar(crate::json::json_of(sample.quote_volume)));
            }
            rows_of_shallow_cells(ts, all);
        }
    }
    row_line(ts, cells)
}


// ---------------------------------------------------------------------------
// Finding things in a row
// ---------------------------------------------------------------------------

proof fn lemma_row_lookup(ts: u64, cells: Seq<(Seq<char>, Json)>, k: int)
    requires
        crate::json::has_distinct_keys(cells),
        !crate::json::has_key(cells, "ts"@),
        0 <= k < cells.len(),
    ensures
        crate::json::lookup(row(ts, cells), "ts"@) == Some(Json::Count(ts)),
        crate::json::lookup(row(ts, cells), cells[k].0) == Some(cells[k].1),
{
    row_of_distinct_keys(ts, cells);
    let entries = seq![("ts"@, Json::Count(ts))] + cells;
    assert forall|i: int, j: int| 0 <= i < j < entries.len() implies (#[trigger] entries[i]).0 != (
    #[trigger] entries[j]).0 by {
        assert(entries[j] == cells[j - 1]);
        if i > 0 {
            assert(entries[i] == cells[i - 1]);
        }
    }
    crate::divergence::round_trip::lemma_lookup(entries, "ts"@, 0);
    assert(entries[k + 1] == cells[k]);
    crate::divergence::round_trip::lemma_lookup(entries, cells[k].0, k + 1);
}

/// A row of prices has the time under `ts`, and each price under the name of its
/// exchange.
pub proof fn prices_are_found_by_name(ts: u64, prices: Seq<(Venue, Value)>, k: int)
    requires
        forall|i: int, j: int|
            0 <= i < j < prices.len() ==> (#[trigger] prices[i]).0 != (#[trigger] prices[j]).0,
        0 <= k < prices.len(),
    ensures
        ({
            let entries = row(ts, by_name(prices));
            &&& entries.len() == prices.len() + 1
            &&& crate::json::lookup(entries, "ts"@) == Some(Json::Count(ts))
            &&& crate::json::lookup(entries, crate::venue::venue_name(prices[k].0)) == Some(
                crate::json::json_of(prices[k].1),
            )
        }),
{
    let cells = by_name(prices);
    prices_follow_the_time(ts, prices);
    assert forall|i: int, j: int| 0 <= i < j < cells.len() implies (#[trigger] cells[i]).0 != (
    #[trigger] cells[j]).0 by {
        crate::venue::names_are_distinct(prices[i].0, prices[j].0);
    }
    assert forall|i: int| 0 <= i < cells.len() implies (#[trigger] cells[i]).0 != "ts"@ by {
        crate::venue::names_are_distinct(prices[i].0, prices[i].0);
    }
    lemma_row_lookup(ts, cells, k);
}

/// A row of failures has the time under `ts`, and each message under the name of
/// its exchange; one of failures to give a volume-weighted price has `vwap:` in
/// front of the name.
pub proof fn messages_are_found_by_name(ts: u64, errors: Seq<(Venue, String)>, k: int)
    requires
        forall|i: int, j: int|
            0 <= i < j < errors.len() ==> (#[trigger] errors[i]).0 != (#[trigger] errors[j]).0,
        0 <= k < errors.len(),
    ensures
        ({
            let plain = row(ts, messages(errors, Seq::empty()));
            let marked = row(ts, messages(errors, "vwap:"@));
            let name = crate::venue::venue_name(errors[k].0);
            &&& plain.len() == errors.len() + 1
            &&& marked.len() == errors.len() + 1
            &&& crate::json::lookup(plain, "ts"@) == Some(Json::Count(ts))
            &&& crate::json::lookup(marked, "ts"@) == Some(Json::Count(ts))
            &&& crate::json::lookup(plain, name) == Some(Json::Text(errors[k].1@))
            &&& crate::json::lookup(marked, "vwap:"@ + name) == Some(Json::Text(errors[k].1@))
        }),
{
    let plain = messages(errors, Seq::empty());
    let marked = messages(errors, "vwap:"@);
    assert forall|i: int| 0 <= i < errors.len() implies (#[trigger] plain[i]).0
        == crate::venue::venue_name(errors[i].0) by {
        assert(plain[i].0 =~= crate::venue::venue_name(errors[i].0));
    }
    assert forall|i: int, j: int| 0 <= i < j < plain.len() implies (#[trigger] plain[i]).0 != (
    #[trigger] plain[j]).0 by {
        crate::venue::names_are_distinct(errors[i].0, errors[j].0);
    }
    assert forall|i: int| 0 <= i < plain.len() implies (#[trigger] plain[i]).0 != "ts"@ by {
        crate::venue::names_are_distinct(errors[i].0, errors[i].0);
    }
    assert forall|i: int, j: int| 0 <= i < j < marked.len() implies (#[trigger] marked[i]).0 != (
    #[trigger] marked[j]).0 by {
        failure_kinds_differ(errors[i].0, errors[j].0);
    }
    assert forall|i: int| 0 <= i < marked.len() implies (#[trigger] marked[i]).0 != "ts"@ by {
        failure_kinds_differ(errors[i].0, errors[i].0);
    }
    lemma_row_lookup(ts, plain, k);
    lemma_row_lookup(ts, marked, k);
    row_of_distinct_keys(ts, plain);
    row_of_distinct_keys(ts, marked);
}

/// A row of volume-weighted prices has the time under `ts`, and under the name of
/// each exchange an object with the price under `vwap` and the volume in the
/// quote currency under `volume`.
pub proof fn samples_are_found_by_name(ts: u64, samples: Seq<(Venue, VwapSample)>, k: int)
    requires
        forall|i: int, j: int|
            0 <= i < j < samples.len() ==> (#[trigger] samples[i]).0 != (#[trigger] samples[j]).0,
        0 <= k < samples.len(),
    ensures
        ({
            let entries = row(ts, samples_by_name(samples));
            let found = crate::json::lookup(entries, crate::venue::venue_name(samples[k].0));
            &&& entries.len() == samples.len() + 1
            &&& crate::json::lookup(entries, "ts"@) == Some(Json::Count(ts))
            &&& found matches Some(Json::Object(sample)) && {
                &&& sample.len() == 2
                &&& crate::json::lookup(sample, "vwap"@) == Some(
                    crate::json::json_of(samples[k].1.vwap),
                )
                &&& crate::json::lookup(sample, "volume"@) == Some(
                    crate::json::json_of(samples[k].1.quote_volume),
                )
            }
        }),
{
    let cells = samples_by_name(samples);
    assert forall|i: int, j: int| 0 <= i < j < cells.len() implies (#[trigger] cells[i]).0 != (
    #[trigger] cells[j]).0 by {
        crate::venue::names_are_distinct(samples[i].0, samples[j].0);
    }
    assert forall|i: int| 0 <= i < cells.len() implies (#[trigger] cells[i]).0 != "ts"@ by {
        crate::venue::names_are_distinct(samples[i].0, samples[i].0);
    }
    lemma_row_lookup(ts, cells, k);
    row_of_distinct_keys(ts, cells);
    let sample = sample_json(samples[k].1)->Object_0;
    reveal_strlit("vwap");
    reveal_strlit("volume");
    assert("vwap"@.len() != "volume"@.len());
    crate::divergence::round_trip::lemma_lookup(sample, "vwap"@, 0);
    crate::divergence::round_trip::lemma_lookup(sample, "volume"@, 1);
}

} // verus!
