//! Fetching the candles of a window page by page.
//!
//! Every exchange hands out its candles in pages. For each of them there is a
//! pager, which says what page to ask for, and what follows from the page that
//! comes: the candles in it, whether there are more, and where to go on.

use serde_json::Value;

use vstd::prelude::*;
use vstd::string::*;

use crate::json::{value_array, value_count, value_text, Json};
use crate::number::Num;
use crate::text::IntError;

pub mod binance;
pub mod bybit;
pub mod coinbase;
pub mod cryptocom;
pub mod kraken;
pub mod kucoin;
pub mod okx;

verus! {

/// The wait between two pages, in milliseconds.
pub const PER_CALL_DELAY_MS: u64 = 500;

/// How much time a candle covers.
#[derive(Clone, Copy, Debug, PartialEq, Eq, Structural)]
pub enum Grain {
    /// One minute. Only the closes of such candles are read.
    Minute,
    /// A quarter of an hour. The closes and the volumes are read.
    Quarter,
}

/// How much time a candle covers, in seconds.
pub open spec fn step_of(grain: Grain) -> u64 {
    match grain {
        Grain::Minute => 60,
        Grain::Quarter => 900,
    }
}

impl Grain {
    /// How much time a candle covers, in seconds.
    pub fn step(self) -> (r: u64)
        ensures
            r == step_of(self),
    {
        match self {
            Grain::Minute => 60,
            Grain::Quarter => 900,
        }
    }
}

/// A text in a page, with the number that it stands for where it stands for
/// one.
pub struct Cell {
    pub text: String,
    pub number: Option<Num>,
}

/// The texts and numbers of a row.
pub open spec fn cell_views(row: Seq<Cell>) -> Seq<(Seq<char>, Option<Num>)> {
    row.map_values(|c: Cell| (c.text@, c.number))
}

/// The rows of a page.
pub open spec fn row_views(rows: Seq<Vec<Cell>>) -> Seq<Seq<(Seq<char>, Option<Num>)>> {
    rows.map_values(|r: Vec<Cell>| cell_views(r@))
}

/// How much was traded during a candle, in the quote currency.
#[derive(Clone, Copy, Debug, PartialEq, Eq, Structural)]
pub enum Volume {
    /// Not read.
    Unread,
    /// Stated by the exchange.
    Stated(Num),
    /// A price times what was traded in the base currency.
    Product(Num, Num),
}

/// A candle.
#[derive(Clone, Copy, Debug, PartialEq, Eq, Structural)]
pub struct Candle {
    /// The slot of the grid that it belongs to.
    pub ts: u64,
    pub close: Num,
    pub volume: Volume,
}

/// What is wrong with a page or with a row of it.
#[derive(Clone, Copy, Debug, PartialEq, Eq, Structural)]
pub enum Fault {
    /// A kline is no array.
    NoKlineArray,
    /// A kline has no time.
    NoOpenTime,
    /// A row is empty.
    NoTime,
    /// The time is no whole number.
    BadTime(IntError),
    /// A row ends before the close.
    NoClose,
    /// A row ends before the volume.
    NoVolume,
    /// The result is no object.
    NoObject,
    /// The result does not say where to go on.
    NoLast,
    /// The result has no rows.
    NoPairArray,
    /// A row of the result is no array.
    NoRowArray,
    /// A row of the result has no time.
    NoRowTime,
    /// The cell with this number is no number.
    BadNumber(usize),
    /// An array ends before a cell that every one must have.
    Short,
    /// The time to go on at does not fit in 64 bits.
    Overflow,
}

/// The row of a page with which something is wrong, and what it is.
#[derive(Clone, Copy, Debug, PartialEq, Eq, Structural)]
pub struct PageFault {
    pub row: usize,
    pub fault: Fault,
}

/// What is made of a row.
#[derive(Clone, Copy, Debug, PartialEq, Eq, Structural)]
pub enum Reading {
    /// The row is not of interest.
    Skip,
    /// Something is wrong with the row.
    Bad(Fault),
    /// The row is a candle that starts at the given time, in the unit of the
    /// exchange.
    Take(u64, Candle),
}

/// The candles among some rows.
pub open spec fn taken(readings: Seq<Reading>) -> Seq<Candle>
    decreases readings.len(),
{
    if readings.len() == 0 {
        Seq::empty()
    } else {
        let before = taken(readings.drop_last());
        match readings.last() {
            Reading::Take(_, candle) => before.push(candle),
            _ => before,
        }
    }
}

/// The first row with which something is wrong.
pub open spec fn first_fault(readings: Seq<Reading>) -> Option<PageFault>
    decreases readings.len(),
{
    if readings.len() == 0 {
        None
    } else {
        match first_fault(readings.drop_last()) {
            Some(f) => Some(f),
            None => match readings.last() {
                Reading::Bad(fault) => Some(
                    PageFault { row: (readings.len() - 1) as usize, fault },
                ),
                _ => None,
            },
        }
    }
}

/// Where no row is found with which something is wrong, nothing is wrong with
/// any.
pub proof fn no_fault_is_overlooked(readings: Seq<Reading>, i: int)
    requires
        first_fault(readings) is None,
        0 <= i < readings.len(),
    ensures
        !(readings[i] is Bad),
    decreases readings.len(),
{
    if i < readings.len() - 1 {
        no_fault_is_overlooked(readings.drop_last(), i);
    }
}

/// The earliest start of a candle among some rows, and no later than `start`.
pub open spec fn oldest(readings: Seq<Reading>, start: u64) -> u64
    decreases readings.len(),
{
    if readings.len() == 0 {
        start
    } else {
        let before = oldest(readings.drop_last(), start);
        match readings.last() {
            Reading::Take(time, _) if time < before => time,
            _ => before,
        }
    }
}

/// The latest start of a candle among some rows, and no earlier than `start`.
pub open spec fn newest(readings: Seq<Reading>, start: u64) -> u64
    decreases readings.len(),
{
    if readings.len() == 0 {
        start
    } else {
        let before = newest(readings.drop_last(), start);
        match readings.last() {
            Reading::Take(time, _) if time > before => time,
            _ => before,
        }
    }
}

/// The earliest start is no later than any, and it is one of them or `start`.
pub proof fn oldest_is_earliest(readings: Seq<Reading>, start: u64)
    ensures
        oldest(readings, start) <= start,
        oldest(readings, start) == start || exists|i: int|
            0 <= i < readings.len() && #[trigger] readings[i] is Take && readings[i]->Take_0 == oldest(
                readings,
                start,
            ),
        forall|i: int|
            0 <= i < readings.len() ==> (#[trigger] readings[i] matches Reading::Take(time, _)
                ==> oldest(readings, start) <= time),
    decreases readings.len(),
{
    if readings.len() > 0 {
        let before = readings.drop_last();
        oldest_is_earliest(before, start);
        if oldest(readings, start) == oldest(before, start) {
            if oldest(before, start) != start {
                let i = choose|i: int|
                    0 <= i < before.len() && #[trigger] before[i] is Take && before[i]->Take_0
                        == oldest(before, start);
                assert(readings[i] == before[i]);
            }
        } else {
            assert(readings[readings.len() - 1] == readings.last());
        }
        assert forall|i: int| 0 <= i < readings.len() implies (
        #[trigger] readings[i] matches Reading::Take(time, _) ==> oldest(readings, start)
            <= time) by {
            if i < before.len() {
                assert(before[i] == readings[i]);
            }
        }
    }
}

/// The latest start is no earlier than any, and it is one of them or `start`.
pub proof fn newest_is_latest(readings: Seq<Reading>, start: u64)
    ensures
        newest(readings, start) >= start,
        newest(readings, start) == start || exists|i: int|
            0 <= i < readings.len() && #[trigger] readings[i] is Take && readings[i]->Take_0 == newest(
                readings,
                start,
            ),
        forall|i: int|
            0 <= i < readings.len() ==> (#[trigger] readings[i] matches Reading::Take(time, _)
                ==> newest(readings, start) >= time),
    decreases readings.len(),
{
    if readings.len() > 0 {
        let before = readings.drop_last();
        newest_is_latest(before, start);
        if newest(readings, start) == newest(before, start) {
            if newest(before, start) != start {
                let i = choose|i: int|
                    0 <= i < before.len() && #[trigger] before[i] is Take && before[i]->Take_0
                        == newest(before, start);
                assert(readings[i] == before[i]);
            }
        } else {
            assert(readings[readings.len() - 1] == readings.last());
        }
        assert forall|i: int| 0 <= i < readings.len() implies (
        #[trigger] readings[i] matches Reading::Take(time, _) ==> newest(readings, start)
            >= time) by {
            if i < before.len() {
                assert(before[i] == readings[i]);
            }
        }
    }
}

/// The candles of a page are those of its rows, in the order of the rows, and
/// none is left out.
pub proof fn candles_keep_the_order_of_the_rows(readings: Seq<Reading>)
    ensures
        taken(readings) == readings.filter(|r: Reading| r is Take).map_values(
            |r: Reading| r->Take_1,
        ),
    decreases readings.len(),
{
    reveal(Seq::filter);
    let keep = |r: Reading| r is Take;
    let candle = |r: Reading| r->Take_1;
    if readings.len() > 0 {
        let before = readings.drop_last();
        candles_keep_the_order_of_the_rows(before);
        if readings.last() is Take {
            assert(readings.filter(keep) == before.filter(keep).push(readings.last()));
            assert(before.filter(keep).push(readings.last()).map_values(candle)
                =~= before.filter(keep).map_values(candle).push(readings.last()->Take_1));
        } else {
            assert(readings.filter(keep) == before.filter(keep));
        }
    } else {
        assert(readings.filter(keep).map_values(candle) =~= Seq::empty());
    }
}

/// The fault that a page is refused for is that of a row, and no row before it
/// has one.
pub proof fn the_first_fault_counts(readings: Seq<Reading>)
    requires
        readings.len() <= usize::MAX,
    ensures
        match first_fault(readings) {
            Some(f) => {
                &&& f.row < readings.len()
                &&& readings[f.row as int] == Reading::Bad(f.fault)
                &&& forall|i: int| 0 <= i < f.row ==> !((#[trigger] readings[i]) is Bad)
            },
            None => forall|i: int| 0 <= i < readings.len() ==> !((#[trigger] readings[i]) is Bad),
        },
    decreases readings.len(),
{
    if readings.len() > 0 {
        let before = readings.drop_last();
        the_first_fault_counts(before);
        assert forall|i: int| 0 <= i < before.len() implies before[i] == readings[i] by {}
    }
}

/// Every candle is that of a row.
pub proof fn candles_come_from_rows(readings: Seq<Reading>, k: int) -> (i: int)
    requires
        0 <= k < taken(readings).len(),
    ensures
        0 <= i < readings.len(),
        readings[i] is Take,
        readings[i]->Take_1 == taken(readings)[k],
    decreases readings.len(),
{
    let before = readings.drop_last();
    if k < taken(before).len() {
        candles_come_from_rows(before, k)
    } else {
        readings.len() - 1
    }
}

/// What is gathered from the rows of a page.
pub struct Gathered {
    pub candles: Vec<Candle>,
    pub oldest: u64,
    pub newest: u64,
}

/// Gathers the candles of a page and the first and the last of their starts,
/// counted from `start`.
pub fn gather(readings: &Vec<Reading>, start: u64) -> (r: Result<Gathered, PageFault>)
    ensures
        match r {
            Ok(g) => {
                &&& first_fault(readings@) is None
                &&& g.candles@ == taken(readings@)
                &&& g.oldest == oldest(readings@, start)
                &&& g.newest == newest(readings@, start)
            },
            Err(f) => first_fault(readings@) == Some(f),
        },
{
    let mut candles: Vec<Candle> = Vec::new();
    let mut first: u64 = start;
    let mut last: u64 = start;
    let mut i: usize = 0;
    assert(readings@.take(0) =~= Seq::empty());
    while i < readings.len()
        invariant
            i <= readings@.len(),
            first_fault(readings@.take(i as int)) is None,
            candles@ == taken(readings@.take(i as int)),
            first == oldest(readings@.take(i as int), start),
            last == newest(readings@.take(i as int), start),
        decreases readings.len() - i,
    {
        assert(readings@.take(i + 1).drop_last() =~= readings@.take(i as int));
        match readings[i] {
            Reading::Skip => {},
            Reading::Bad(fault) => {
                proof {
                    lemma_first_fault(readings@, i + 1);
                }
                return Err(PageFault { row: i, fault });
            },
            Reading::Take(time, candle) => {
                if time < first {
                    first = time;
                }
                if time > last {
                    last = time;
                }
                candles.push(candle);
            },
        }
        i = i + 1;
    }
    assert(readings@.take(readings@.len() as int) =~= readings@);
    Ok(Gathered { candles, oldest: first, newest: last })
}

proof fn lemma_first_fault(readings: Seq<Reading>, n: int)
    requires
        0 <= n <= readings.len(),
        first_fault(readings.take(n)) is Some,
    ensures
        first_fault(readings) == first_fault(readings.take(n)),
    decreases readings.len(),
{
    if n == readings.len() {
        assert(readings.take(n) =~= readings);
    } else {
        assert(readings.drop_last().take(n) =~= readings.take(n));
        lemma_first_fault(readings.drop_last(), n);
    }
}

/// What follows from a page.
#[verifier::ext_equal]
pub struct PageView {
    pub candles: Seq<Candle>,
    pub counted: nat,
    pub progress: Option<(u64, u64)>,
    pub done: bool,
}

/// What follows from a page.
pub struct Page {
    /// The candles in it.
    pub candles: Vec<Candle>,
    /// By how much the count of candles grows.
    pub counted: usize,
    /// How much of the window has been covered, and the whole of it, where that
    /// is known anew.
    pub progress: Option<(u64, u64)>,
    /// Whether there is no further page to ask for.
    pub done: bool,
}

impl View for Page {
    type V = PageView;

    open spec fn view(&self) -> PageView {
        PageView {
            candles: self.candles@,
            counted: self.counted as nat,
            progress: self.progress,
            done: self.done,
        }
    }
}

/// What follows from a page without candles that ends the fetching.
pub open spec fn nothing() -> PageView {
    PageView { candles: Seq::empty(), counted: 0, progress: None, done: true }
}

/// Says that there is nothing in a page and no further one to ask for.
pub fn no_page() -> (r: Page)
    ensures
        r@ == nothing(),
{
    let r = Page { candles: Vec::new(), counted: 0, progress: None, done: true };
    assert(r@ =~= nothing());
    r
}

/// The number in a cell, or what is wrong with it.
pub open spec fn number_at(row: Seq<(Seq<char>, Option<Num>)>, i: int) -> Result<Num, Fault> {
    match row[i].1 {
        Some(n) => Ok(n),
        None => Err(Fault::BadNumber(i as usize)),
    }
}

/// Reads the number in a cell.
pub fn read_number(row: &Vec<Cell>, i: usize) -> (r: Result<Num, Fault>)
    requires
        i < row@.len(),
    ensures
        r == number_at(cell_views(row@), i as int),
{
    match row[i].number {
        Some(n) => Ok(n),
        None => Err(Fault::BadNumber(i)),
    }
}

/// What is read of a JSON value in a row.
pub struct JsonCell {
    /// The value, where it is a whole number that is not negative.
    pub whole: Option<u64>,
    /// The value, where it is a text, and otherwise nothing.
    pub text: String,
    /// The number that the text stands for, where it stands for one.
    pub number: Option<Num>,
}

/// What is read of a JSON value in a row, before its text has been taken for a
/// number.
pub open spec fn json_cell(j: Json) -> (Option<u64>, Seq<char>, Option<Num>) {
    (
        crate::json::count_in(j),
        match crate::json::text_in(j) {
            Some(text) => text,
            None => Seq::empty(),
        },
        None,
    )
}

/// What is read of a JSON value that should be a row.
pub open spec fn json_row(j: Json) -> Option<Seq<(Option<u64>, Seq<char>, Option<Num>)>> {
    match j {
        Json::Array(values) => Some(values.map_values(|v: Json| json_cell(v))),
        _ => None,
    }
}

/// Of a JSON value in a row a whole number that is not negative is read as it
/// is, and a text as it is; of any other value nothing is read.
pub proof fn cells_are_read(j: Json)
    ensures
        ({
            let (whole, text, number) = json_cell(j);
            &&& number is None
            &&& j is Count <==> whole is Some
            &&& j matches Json::Count(n) ==> whole == Some(n)
            &&& j matches Json::Text(s) ==> text == s
            &&& !(j is Text) ==> text.len() == 0
        }),
{
}

/// A JSON value is a row where, and only where, it is an array, and every value
/// in it is a cell of the row.
pub proof fn arrays_are_rows(j: Json)
    ensures
        json_row(j) is Some <==> j is Array,
        json_row(j) matches Some(row) ==> row.len() == j->Array_0.len() && forall|i: int|
            0 <= i < row.len() ==> #[trigger] row[i] == json_cell(j->Array_0[i]),
{
}

/// What is read of the cells of a row.
pub open spec fn json_cell_views(row: Seq<JsonCell>) -> Seq<
    (Option<u64>, Seq<char>, Option<Num>),
> {
    row.map_values(|c: JsonCell| (c.whole, c.text@, c.number))
}

/// What is read of a row, where it is one.
pub open spec fn json_row_view(row: Option<Vec<JsonCell>>) -> Option<
    Seq<(Option<u64>, Seq<char>, Option<Num>)>,
> {
    match row {
        Some(cells) => Some(json_cell_views(cells@)),
        None => None,
    }
}

/// What is read of the rows of a page.
pub open spec fn json_row_views(rows: Seq<Option<Vec<JsonCell>>>) -> Seq<
    Option<Seq<(Option<u64>, Seq<char>, Option<Num>)>>,
> {
    rows.map_values(|r: Option<Vec<JsonCell>>| json_row_view(r))
}

fn read_json_cell(value: &Value) -> (r: JsonCell)
    ensures
        (r.whole, r.text@, r.number) == json_cell(crate::json::json_of(*value)),
{
    let text = match value_text(value) {
        Some(text) => text.to_owned(),
        None => String::new(),
    };
    assert(text@ =~= json_cell(crate::json::json_of(*value)).1);
    JsonCell { whole: value_count(value), text, number: None }
}

fn read_json_row(value: &Value) -> (r: Option<Vec<JsonCell>>)
    ensures
        json_row_view(r) == json_row(crate::json::json_of(*value)),
{
    match value_array(value) {
        Some(values) => {
            let ghost goal = json_row(crate::json::json_of(*value))->Some_0;
            let mut cells: Vec<JsonCell> = Vec::new();
            let mut i: usize = 0;
            while i < values.len()
                invariant
                    i <= values@.len(),
                    crate::json::json_of(*value) == Json::Array(
                        crate::json::elements(values@),
                    ),
                    goal == json_row(crate::json::json_of(*value))->Some_0,
                    json_cell_views(cells@) =~= goal.take(i as int),
                decreases values.len() - i,
            {
                let ghost before = cells@;
                cells.push(read_json_cell(&values[i]));
                assert(json_cell_views(cells@) =~= json_cell_views(before).push(goal[i as int]));
                i = i + 1;
            }
            assert(json_cell_views(cells@) =~= goal);
            Some(cells)
        },
        None => None,
    }
}

/// Reads the rows of a page of JSON values.
pub fn read_json_rows(values: &Vec<Value>) -> (r: Vec<Option<Vec<JsonCell>>>)
    ensures
        json_row_views(r@) == crate::json::elements(values@).map_values(|j: Json| json_row(j)),
{
    let ghost goal = crate::json::elements(values@).map_values(|j: Json| json_row(j));
    let mut rows: Vec<Option<Vec<JsonCell>>> = Vec::new();
    let mut i: usize = 0;
    while i < values.len()
        invariant
            i <= values@.len(),
            goal == crate::json::elements(values@).map_values(|j: Json| json_row(j)),
            json_row_views(rows@) =~= goal.take(i as int),
        decreases values.len() - i,
    {
        let ghost before = rows@;
        rows.push(read_json_row(&values[i]));
        assert(json_row_views(rows@) =~= json_row_views(before).push(goal[i as int]));
        i = i + 1;
    }
    assert(json_row_views(rows@) =~= goal);
    rows
}

/// The number in a cell, or what is wrong with it.
pub open spec fn json_number_at(
    row: Seq<(Option<u64>, Seq<char>, Option<Num>)>,
    i: int,
) -> Result<Num, Fault> {
    if row.len() <= i {
        Err(Fault::Short)
    } else {
        match row[i].2 {
            Some(n) => Ok(n),
            None => Err(Fault::BadNumber(i as usize)),
        }
    }
}

/// Reads the number in a cell.
pub fn read_json_number(row: &Vec<JsonCell>, i: usize) -> (r: Result<Num, Fault>)
    ensures
        r == json_number_at(json_cell_views(row@), i as int),
{
    if row.len() <= i {
        return Err(Fault::Short);
    }
    match row[i].number {
        Some(n) => Ok(n),
        None => Err(Fault::BadNumber(i)),
    }
}

/// What a fault is called. A cell that is no number speaks for itself.
pub open spec fn fault_words(fault: Fault, venue: Seq<char>) -> Option<Seq<char>> {
    match fault {
        Fault::NoKlineArray => Some("non-array kline row"@),
        Fault::NoOpenTime => Some("missing openTime"@),
        Fault::NoTime => Some("missing ts"@),
        Fault::BadTime(e) => Some(venue + "ts parse: "@ + crate::args::int_error_words(e)),
        Fault::NoClose => Some("missing close"@),
        Fault::NoVolume => Some("missing volCcy"@),
        Fault::NoObject => Some("kraken: result not an object"@),
        Fault::NoLast => Some("kraken: missing last"@),
        Fault::NoPairArray => Some("kraken: no pair array"@),
        Fault::NoRowArray => Some("kraken row not array"@),
        Fault::NoRowTime => Some("kraken row ts"@),
        Fault::BadNumber(_) => None,
        Fault::Short => None,
        Fault::Overflow => None,
    }
}

/// Names a fault. `venue` stands in front of the name of a bad time.
pub fn fault_text(fault: Fault, venue: &str) -> (r: Option<String>)
    ensures
        match r {
            Some(s) => fault_words(fault, venue@) == Some(s@),
            None => fault_words(fault, venue@) is None,
        },
{
    match fault {
        Fault::NoKlineArray => Some("non-array kline row".to_owned()),
        Fault::NoOpenTime => Some("missing openTime".to_owned()),
        Fault::NoTime => Some("missing ts".to_owned()),
        Fault::BadTime(e) => {
            let mut out = venue.to_owned();
            out.append("ts parse: ");
            out.append(crate::args::int_error_text(e).as_str());
            Some(out)
        },
        Fault::NoClose => Some("missing close".to_owned()),
        Fault::NoVolume => Some("missing volCcy".to_owned()),
        Fault::NoObject => Some("kraken: result not an object".to_owned()),
        Fault::NoLast => Some("kraken: missing last".to_owned()),
        Fault::NoPairArray => Some("kraken: no pair array".to_owned()),
        Fault::NoRowArray => Some("kraken row not array".to_owned()),
        Fault::NoRowTime => Some("kraken row ts".to_owned()),
        Fault::BadNumber(_) => None,
        Fault::Short => None,
        Fault::Overflow => None,
    }
}


// ---------------------------------------------------------------------------
// What is asked for
// ---------------------------------------------------------------------------

/// Whether an address gives `value` to `key`: the two stand in it one behind the
/// other, and nothing but another parameter follows.
pub open spec fn asks(url: Seq<char>, key: Seq<char>, value: Seq<char>) -> bool {
    exists|i: int|
        {
            let j = i + key.len();
            let k = j + value.len();
            &&& 0 <= i
            &&& k <= url.len()
            &&& #[trigger] url.subrange(i, i + key.len()) == key
            &&& url.subrange(j, k) == value
            &&& k < url.len() ==> url[k] == '&'
        }
}

/// An address that is put together from parts gives the value to the key.
pub proof fn lemma_asks(
    head: Seq<char>,
    key: Seq<char>,
    value: Seq<char>,
    tail: Seq<char>,
)
    requires
        tail.len() > 0 ==> tail[0] == '&',
    ensures
        asks(head + key + value + tail, key, value),
{
    let url = head + key + value + tail;
    let i = head.len() as int;
    let j = i + key.len();
    let k = j + value.len();
    assert(url.subrange(i, i + key.len()) =~= key);
    assert(url.subrange(j, k) =~= value);
    assert(k < url.len() ==> url[k] == tail[0]);
}


/// No more than two pages are asked for in a second.
pub proof fn pages_are_asked_for_slowly()
    ensures
        2 * PER_CALL_DELAY_MS == 1000,
{
}

} // verus!
