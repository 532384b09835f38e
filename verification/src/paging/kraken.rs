//! Kraken hands out its candles from the oldest to the newest, and says with
//! each page where the next one starts. There are none of one minute that go
//! back far enough.

use serde_json::{Map as Object, Value};

use vstd::prelude::*;

use crate::grid::snap_to;
use crate::json::{entry_at, entry_count, get, value_array, value_count, value_object, Json};
use crate::number::Num;
use crate::paging::{
    gather, no_page, read_json_number, read_json_rows, Candle, Fault, JsonCell, Page, PageFault,
    PageView, Reading, Volume,
};
use crate::text::{push_decimal, same};

verus! {

/// How much time a candle covers, in seconds.
pub const STEP: u64 = 900;

/// The first entry that does not say where the next page starts.
pub open spec fn pair_entry(entries: Seq<(Seq<char>, Json)>) -> Option<Json>
    decreases entries.len(),
{
    if entries.len() == 0 {
        None
    } else if entries[0].0 != "last"@ {
        Some(entries[0].1)
    } else {
        pair_entry(entries.skip(1))
    }
}

/// Where the next page starts.
pub open spec fn last_in(entries: Seq<(Seq<char>, Json)>) -> Option<u64> {
    match crate::json::lookup(entries, "last"@) {
        Some(j) => crate::json::count_in(j),
        None => None,
    }
}

/// What is read of a result: where the next page starts, and the rows.
pub open spec fn result_of(j: Json) -> Result<
    (u64, Seq<Option<Seq<(Option<u64>, Seq<char>, Option<Num>)>>>),
    Fault,
> {
    match j {
        Json::Object(entries) => match last_in(entries) {
            None => Err(Fault::NoLast),
            Some(last) => match pair_entry(entries) {
                Some(Json::Array(rows)) => Ok(
                    (last, rows.map_values(|row: Json| crate::paging::json_row(row))),
                ),
                _ => Err(Fault::NoPairArray),
            },
        },
        _ => Err(Fault::NoObject),
    }
}

/// A page.
pub struct KrakenRows {
    /// Where the next page starts.
    pub last: u64,
    pub rows: Vec<Option<Vec<JsonCell>>>,
}

fn find_pair(obj: &Object<String, Value>) -> (r: Option<&Value>)
    ensures
        match r {
            Some(v) => pair_entry(crate::json::entries(*obj)) == Some(crate::json::json_of(*v)),
            None => pair_entry(crate::json::entries(*obj)) is None,
        },
{
    let ghost all = crate::json::entries(*obj);
    let n: usize = entry_count(obj);
    let mut i: usize = 0;
    assert(all.skip(0) =~= all);
    while i < n
        invariant
            i <= n,
            n == all.len(),
            all == crate::json::entries(*obj),
            pair_entry(all) == pair_entry(all.skip(i as int)),
        decreases n - i,
    {
        assert(all.skip(i as int)[0] == all[i as int]);
        assert(all.skip(i as int).skip(1) =~= all.skip(i + 1));
        match entry_at(obj, i) {
            Some((key, value)) => {
                if !same(key.as_str(), "last") {
                    return Some(value);
                }
            },
            None => {},
        }
        i = i + 1;
    }
    None
}

/// Reads a result.
pub fn read_result(result: &Value) -> (r: Result<KrakenRows, Fault>)
    ensures
        match r {
            Ok(page) => result_of(crate::json::json_of(*result)) == Ok::<
                (u64, Seq<Option<Seq<(Option<u64>, Seq<char>, Option<Num>)>>>),
                Fault,
            >((page.last, crate::paging::json_row_views(page.rows@))),
            Err(fault) => result_of(crate::json::json_of(*result)) == Err::<
                (u64, Seq<Option<Seq<(Option<u64>, Seq<char>, Option<Num>)>>>),
                Fault,
            >(fault),
        },
{
    let obj = match value_object(result) {
        Some(obj) => obj,
        None => {
            return Err(Fault::NoObject);
        },
    };
    let last = match get(obj, "last") {
        Some(value) => value_count(value),
        None => None,
    };
    match last {
        Some(last) => match find_pair(obj) {
            Some(value) => match value_array(value) {
                Some(rows) => Ok(KrakenRows { last, rows: read_json_rows(rows) }),
                None => Err(Fault::NoPairArray),
            },
            None => Err(Fault::NoPairArray),
        },
        None => Err(Fault::NoLast),
    }
}

/// Where the fetching stands.
#[derive(Clone, Copy, Debug, PartialEq, Eq, Structural)]
pub struct Kraken {
    pub from: u64,
    pub to: u64,
    /// The next page starts with this time.
    pub since: u64,
}

impl Kraken {
    /// Fetches the window from `from` up to `to`.
    pub fn new(from: u64, to: u64) -> (r: Kraken)
        ensures
            r == (Kraken { from, to, since: from }),
    {
        Kraken { from, to, since: from }
    }

    /// What to ask for.
    pub open spec fn url_words(self) -> Seq<char> {
        "https://api.kraken.com/0/public/OHLC?pair=DOTUSD&interval=15&since="@
            + crate::text::decimal(self.since as nat)
    }

    /// Says what to ask for.
    pub fn url(&self) -> (r: String)
        ensures
            r@ == self.url_words(),
    {
        let mut out =
            "https://api.kraken.com/0/public/OHLC?pair=DOTUSD&interval=15&since=".to_owned();
        push_decimal(&mut out, self.since);
        out
    }

    /// What is made of a row: `[time, open, high, low, close, mean, volume,
    /// count]`, the time in seconds, the mean weighted by volume, the volume in
    /// the base currency. A candle that does not start in the window is
    /// skipped.
    pub open spec fn reading(
        self,
        row: Option<Seq<(Option<u64>, Seq<char>, Option<Num>)>>,
    ) -> Reading {
        match row {
            None => Reading::Bad(Fault::NoRowArray),
            Some(cells) => if cells.len() == 0 {
                Reading::Bad(Fault::Short)
            } else {
                match cells[0].0 {
                    None => Reading::Bad(Fault::NoRowTime),
                    Some(time) => if time < self.from || time >= self.to {
                        Reading::Skip
                    } else {
                        match (
                            crate::paging::json_number_at(cells, 4),
                            crate::paging::json_number_at(cells, 5),
                            crate::paging::json_number_at(cells, 6),
                        ) {
                            (Err(fault), _, _) => Reading::Bad(fault),
                            (_, Err(fault), _) => Reading::Bad(fault),
                            (_, _, Err(fault)) => Reading::Bad(fault),
                            (Ok(close), Ok(mean), Ok(base)) => Reading::Take(
                                time,
                                Candle {
                                    ts: crate::grid::slot_start(time as nat, STEP as nat) as u64,
                                    close,
                                    volume: Volume::Product(mean, base),
                                },
                            ),
                        }
                    },
                }
            },
        }
    }

    fn read_row(&self, row: &Option<Vec<JsonCell>>) -> (r: Reading)
        ensures
            r == self.reading(crate::paging::json_row_view(*row)),
    {
        let cells = match row {
            Some(cells) => cells,
            None => {
                return Reading::Bad(Fault::NoRowArray);
            },
        };
        if cells.len() == 0 {
            return Reading::Bad(Fault::Short);
        }
        let time = match cells[0].whole {
            Some(time) => time,
            None => {
                return Reading::Bad(Fault::NoRowTime);
            },
        };
        if time < self.from || time >= self.to {
            return Reading::Skip;
        }
        let close = match read_json_number(cells, 4) {
            Ok(n) => n,
            Err(fault) => {
                return Reading::Bad(fault);
            },
        };
        let mean = match read_json_number(cells, 5) {
            Ok(n) => n,
            Err(fault) => {
                return Reading::Bad(fault);
            },
        };
        let base = match read_json_number(cells, 6) {
            Ok(n) => n,
            Err(fault) => {
                return Reading::Bad(fault);
            },
        };
        Reading::Take(
            time,
            Candle { ts: snap_to(time, STEP), close, volume: Volume::Product(mean, base) },
        )
    }

    /// What is made of the rows of a page.
    pub open spec fn readings(
        self,
        rows: Seq<Option<Seq<(Option<u64>, Seq<char>, Option<Num>)>>>,
    ) -> Seq<Reading> {
        rows.map_values(
            |row: Option<Seq<(Option<u64>, Seq<char>, Option<Num>)>>| self.reading(row),
        )
    }

    /// What follows from a page, and where the fetching stands then. The
    /// fetching ends with an empty page, and where the next page would not
    /// start later than this one or would start behind the window.
    pub open spec fn outcome(
        self,
        last: u64,
        rows: Seq<Option<Seq<(Option<u64>, Seq<char>, Option<Num>)>>>,
    ) -> Result<(PageView, Kraken), PageFault> {
        let readings = self.readings(rows);
        if rows.len() == 0 {
            Ok((crate::paging::nothing(), self))
        } else if let Some(fault) = crate::paging::first_fault(readings) {
            Err(fault)
        } else {
            let ends = last <= self.since || last >= self.to;
            Ok(
                (
                    PageView {
                        candles: crate::paging::taken(readings),
                        counted: rows.len(),
                        progress: None,
                        done: ends || crate::paging::newest(readings, self.since) == 0,
                    },
                    if ends {
                        self
                    } else {
                        Kraken { since: last, ..self }
                    },
                ),
            )
        }
    }

    /// Takes a page. Where something is wrong with it, the fetching stands where
    /// it stood.
    pub fn accept(&mut self, page: &KrakenRows) -> (r: Result<Page, PageFault>)
        ensures
            match r {
                Ok(p) => old(self).outcome(
                    page.last,
                    crate::paging::json_row_views(page.rows@),
                ) == Ok::<(PageView, Kraken), PageFault>((p@, *final(self))),
                Err(fault) => old(self).outcome(
                    page.last,
                    crate::paging::json_row_views(page.rows@),
                ) == Err::<(PageView, Kraken), PageFault>(fault) && *final(self) == *old(self),
            },
    {
        let rows = &page.rows;
        if rows.len() == 0 {
            return Ok(no_page());
        }
        let ghost goal = self.readings(crate::paging::json_row_views(rows@));
        let mut readings: Vec<Reading> = Vec::new();
        let mut i: usize = 0;
        while i < rows.len()
            invariant
                i <= rows@.len(),
                *self == *old(self),
                goal == self.readings(crate::paging::json_row_views(rows@)),
                readings@ =~= goal.take(i as int),
            decreases rows.len() - i,
        {
            readings.push(self.read_row(&rows[i]));
            i = i + 1;
        }
        assert(readings@ =~= goal);
        let g = match gather(&readings, self.since) {
            Ok(g) => g,
            Err(fault) => {
                return Err(fault);
            },
        };
        let ends = page.last <= self.since || page.last >= self.to;
        if !ends {
            self.since = page.last;
        }
        Ok(
            Page {
                candles: g.candles,
                counted: rows.len(),
                progress: None,
                done: ends || g.newest == 0,
            },
        )
    }

    /// The fetching goes on with every page that is not the last, and stays in
    /// the window.
    pub proof fn walks_on(
        self,
        last: u64,
        rows: Seq<Option<Seq<(Option<u64>, Seq<char>, Option<Num>)>>>,
    )
        ensures
            self.outcome(last, rows) matches Ok((page, next)) ==> (!page.done ==> self.since
                < next.since < self.to),
    {
    }

    /// The candles lie in the window.
    pub proof fn candles_lie_in_the_window(
        self,
        last: u64,
        rows: Seq<Option<Seq<(Option<u64>, Seq<char>, Option<Num>)>>>,
        k: int,
    )
        requires
            self.outcome(last, rows) is Ok,
            0 <= k < self.outcome(last, rows)->Ok_0.0.candles.len(),
        ensures
            ({
                let ts = self.outcome(last, rows)->Ok_0.0.candles[k].ts;
                crate::grid::slot_start(self.from as nat, STEP as nat) <= ts < self.to
            }),
    {
        let readings = self.readings(rows);
        let i = crate::paging::candles_come_from_rows(readings, k);
        assert(readings[i] == self.reading(rows[i]));
        let time = readings[i]->Take_0;
        crate::grid::slots_keep_the_order(self.from as nat, time as nat, STEP as nat);
        crate::grid::slot_start_is_on_the_grid(time as nat, STEP as nat);
    }

    /// A page is asked for from where the fetching stands, in candles of a quarter
    /// of an hour.
    pub proof fn pages_are_asked_for(self)
        ensures
            crate::paging::asks(self.url_words(), "&since="@, crate::text::decimal(self.since as nat)),
    {
        reveal_strlit("https://api.kraken.com/0/public/OHLC?pair=DOTUSD&interval=15&since=");
        reveal_strlit("https://api.kraken.com/0/public/OHLC?pair=DOTUSD&interval=15");
        reveal_strlit("&since=");
        reveal_with_fuel(crate::text::decimal, 3);
        let site = "https://api.kraken.com/0/public/OHLC?pair=DOTUSD&interval=15"@;
        assert("https://api.kraken.com/0/public/OHLC?pair=DOTUSD&interval=15&since="@ =~= site + "&since="@);
        let v0 = crate::text::decimal(self.since as nat);
        crate::paging::lemma_asks(site, "&since="@, v0, Seq::<char>::empty());
        assert(self.url_words() =~= site + "&since="@ + v0 + (Seq::<char>::empty()));
    }

    /// A row that is no array or has no time is refused, and one that does not
    /// start in the window is skipped. Any other row is taken where, and only
    /// where, it has the numbers that are needed. Its candle has the close of the
    /// row, the volume that the mean and the volume of the row make up, and
    /// stands at the slot that holds the time.
    pub proof fn rows_are_read(self, row: Option<Seq<(Option<u64>, Seq<char>, Option<Num>)>>)
        ensures
            ({
                let r = self.reading(row);
                let timed = row is Some && row->Some_0.len() > 0 && row->Some_0[0].0 is Some;
                let time = row->Some_0[0].0->Some_0;
                &&& !timed ==> r is Bad
                &&& r is Skip <==> timed && (time < self.from || time >= self.to)
                &&& r is Take <==> timed && self.from <= time < self.to && row->Some_0.len() > 6
                    && row->Some_0[4].2 is Some && row->Some_0[5].2 is Some
                    && row->Some_0[6].2 is Some
                &&& r matches Reading::Take(t, c) ==> {
                    &&& t == time
                    &&& row->Some_0[4].2 == Some(c.close)
                    &&& c.volume == Volume::Product(
                        row->Some_0[5].2->Some_0,
                        row->Some_0[6].2->Some_0,
                    )
                    &&& c.ts as int % 900 == 0
                    &&& c.ts <= time < c.ts + 900
                }
            }),
    {
        if let Reading::Take(time, _) = self.reading(row) {
            crate::grid::slot_start_is_on_the_grid(time as nat, STEP as nat);
        }
    }

    /// A page is refused for the first row with which something is wrong.
    /// Otherwise every row counts, and those that are taken give the candles.
    pub proof fn pages_are_read_row_by_row(self, last: u64, rows: Seq<Option<Seq<(Option<u64>, Seq<char>, Option<Num>)>>>)
        requires
            rows.len() <= usize::MAX,
        ensures
            match self.outcome(last, rows) {
                Ok((page, next)) => {
                    &&& page.counted == rows.len()
                    &&& page.progress is None
                    &&& page.candles == crate::paging::taken(
                        rows.map_values(|row: Option<Seq<(Option<u64>, Seq<char>, Option<Num>)>>| self.reading(row)),
                    )
                    &&& forall|i: int|
                        0 <= i < rows.len() ==> !(self.reading(#[trigger] rows[i]) is Bad)
                    &&& (next.from, next.to) == (self.from, self.to)
                },
                Err(f) => {
                    &&& f.row < rows.len()
                    &&& self.reading(rows[f.row as int]) == Reading::Bad(f.fault)
                    &&& forall|i: int|
                        0 <= i < f.row ==> !(self.reading(#[trigger] rows[i]) is Bad)
                },
            },
    {
        let readings = self.readings(rows);
        crate::paging::the_first_fault_counts(readings);
        let n = match crate::paging::first_fault(readings) {
            Some(f) => f.row as int,
            None => rows.len() as int,
        };
        assert forall|i: int| 0 <= i < n implies !(self.reading(#[trigger] rows[i]) is Bad) by {
            assert(readings[i] == self.reading(rows[i]));
        }
        if rows.len() == 0 {
            assert(readings =~= Seq::empty());
        }
    }

    /// The next page starts where this one says. A page is the last one where it
    /// is empty, where it does not lead on or leads out of the window, and where
    /// neither the fetching nor a candle in it has left the time 0.
    pub proof fn pages_lead_on(self, last: u64, rows: Seq<Option<Seq<(Option<u64>, Seq<char>, Option<Num>)>>>)
        ensures
            self.outcome(last, rows) matches Ok((page, next)) ==> {
                &&& page.done <==> rows.len() == 0 || last <= self.since || last >= self.to || (
                self.since == 0 && forall|i: int|
                    0 <= i < rows.len() && self.reading(#[trigger] rows[i]) is Take
                        ==> self.reading(rows[i])->Take_0 == 0)
                &&& !page.done ==> next.since == last
                &&& rows.len() == 0 || last <= self.since || last >= self.to ==> next == self
            },
    {
        let readings = self.readings(rows);
        crate::paging::newest_is_latest(readings, self.since);
        let newest = crate::paging::newest(readings, self.since);
        assert forall|i: int|
            0 <= i < rows.len() && self.reading(#[trigger] rows[i]) is Take implies self.reading(
            rows[i],
        )->Take_0 <= newest by {
            assert(readings[i] == self.reading(rows[i]));
        }
        if newest != self.since {
            let i = choose|i: int|
                0 <= i < readings.len() && #[trigger] readings[i] is Take && readings[i]->Take_0
                    == newest;
            assert(self.reading(rows[i]) is Take);
        }
    }
}


/// The rows of a result are those of the first entry that is not `last`, and
/// the next page starts at the number under `last`.
pub proof fn results_hold_one_pair(entries: Seq<(Seq<char>, Json)>, i: int)
    requires
        0 <= i < entries.len(),
        entries[i].0 != "last"@,
        forall|k: int| 0 <= k < i ==> (#[trigger] entries[k]).0 == "last"@,
    ensures
        result_of(Json::Object(entries)) matches Ok((last, rows)) ==> {
            &&& crate::json::lookup(entries, "last"@) == Some(Json::Count(last))
            &&& entries[i].1 is Array
            &&& rows.len() == entries[i].1->Array_0.len()
            &&& forall|k: int|
                0 <= k < rows.len() ==> #[trigger] rows[k] == crate::paging::json_row(
                    entries[i].1->Array_0[k],
                )
        },
{
    lemma_pair_entry(entries, i);
}

proof fn lemma_pair_entry(entries: Seq<(Seq<char>, Json)>, i: int)
    requires
        0 <= i < entries.len(),
        entries[i].0 != "last"@,
        forall|k: int| 0 <= k < i ==> (#[trigger] entries[k]).0 == "last"@,
    ensures
        pair_entry(entries) == Some(entries[i].1),
    decreases entries.len(),
{
    if i > 0 {
        let rest = entries.skip(1);
        assert(entries[0].0 == "last"@);
        assert forall|k: int| 0 <= k < i - 1 implies (#[trigger] rest[k]).0 == "last"@ by {
            assert(rest[k] == entries[k + 1]);
        }
        lemma_pair_entry(rest, i - 1);
    }
}

} // verus!
