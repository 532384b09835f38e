//! Binance hands out its candles from the oldest to the newest. A page holds
//! those from a given time on.

use vstd::prelude::*;
use vstd::string::*;

use crate::grid::snap_to;
use crate::number::Num;
use crate::paging::{
    gather, no_page, read_json_number, Candle, Fault, Grain, JsonCell, Page, PageFault, PageView,
    Reading, Volume,
};
use crate::text::push_decimal;

verus! {

/// How many candles a full page holds.
pub const FULL: usize = 1000;

/// Where the fetching stands.
#[derive(Clone, Copy, Debug, PartialEq, Eq, Structural)]
pub struct Binance {
    pub grain: Grain,
    pub from: u64,
    pub to: u64,
    /// The next page starts with this time, in milliseconds.
    pub start_ms: u64,
}

/// What the interval of a candle is called.
pub open spec fn interval_words(grain: Grain) -> Seq<char> {
    match grain {
        Grain::Minute => "1m"@,
        Grain::Quarter => "15m"@,
    }
}

proof fn lemma_all_taken(readings: Seq<Reading>)
    requires
        forall|i: int| 0 <= i < readings.len() ==> (#[trigger] readings[i]) is Take,
    ensures
        crate::paging::taken(readings).len() == readings.len(),
        forall|i: int|
            0 <= i < readings.len() ==> (#[trigger] readings[i])->Take_1 == crate::paging::taken(
                readings,
            )[i],
    decreases readings.len(),
{
    if readings.len() > 0 {
        let before = readings.drop_last();
        assert forall|i: int| 0 <= i < before.len() implies (#[trigger] before[i]) is Take by {
            assert(before[i] == readings[i]);
        }
        lemma_all_taken(before);
        assert forall|i: int| 0 <= i < readings.len() implies (#[trigger] readings[i])->Take_1
            == crate::paging::taken(readings)[i] by {
            if i < before.len() {
                assert(before[i] == readings[i]);
            }
        }
    }
}

impl Binance {
    /// Whether the times in milliseconds fit in 64 bits and the fetching has
    /// not left the window.
    pub open spec fn valid(self) -> bool {
        &&& self.from <= self.to
        &&& self.to * 1000 <= u64::MAX
        &&& self.from * 1000 <= self.start_ms
    }

    /// Fetches the window from `from` up to `to`.
    pub fn new(grain: Grain, from: u64, to: u64) -> (r: Binance)
        requires
            from <= to,
            to * 1000 <= u64::MAX,
        ensures
            r == (Binance { grain, from, to, start_ms: (from * 1000) as u64 }),
            r.valid(),
    {
        Binance { grain, from, to, start_ms: from * 1000 }
    }

    /// What to ask for.
    pub open spec fn url_words(self) -> Seq<char> {
        "https://data-api.binance.vision/api/v3/klines?symbol=DOTUSDT&interval="@ + interval_words(
            self.grain,
        ) + "&startTime="@ + crate::text::decimal(self.start_ms as nat) + "&endTime="@
            + crate::text::decimal((self.to * 1000) as nat) + "&limit=1000"@
    }

    /// Says what to ask for.
    pub fn url(&self) -> (r: String)
        requires
            self.valid(),
        ensures
            r@ == self.url_words(),
    {
        let mut out =
            "https://data-api.binance.vision/api/v3/klines?symbol=DOTUSDT&interval=".to_owned();
        match self.grain {
            Grain::Minute => {
                out.append("1m");
            },
            Grain::Quarter => {
                out.append("15m");
            },
        }
        out.append("&startTime=");
        push_decimal(&mut out, self.start_ms);
        out.append("&endTime=");
        push_decimal(&mut out, self.to * 1000);
        out.append("&limit=1000");
        out
    }

    /// What is made of a row: `[time, open, high, low, close, volume, end, quote
    /// volume, ..]`, the time in milliseconds.
    pub open spec fn reading(
        self,
        row: Option<Seq<(Option<u64>, Seq<char>, Option<Num>)>>,
    ) -> Reading {
        match row {
            None => Reading::Bad(Fault::NoKlineArray),
            Some(cells) => if cells.len() == 0 {
                Reading::Bad(Fault::Short)
            } else {
                match cells[0].0 {
                    None => Reading::Bad(Fault::NoOpenTime),
                    Some(time) => match crate::paging::json_number_at(cells, 4) {
                        Err(fault) => Reading::Bad(fault),
                        Ok(close) => match self.volume(cells) {
                            Err(fault) => Reading::Bad(fault),
                            Ok(volume) => Reading::Take(
                                time,
                                Candle {
                                    ts: crate::grid::slot_start(
                                        (time / 1000) as nat,
                                        crate::paging::step_of(self.grain) as nat,
                                    ) as u64,
                                    close,
                                    volume,
                                },
                            ),
                        },
                    },
                }
            },
        }
    }

    /// The volume in a row, where it is to be read.
    pub open spec fn volume(
        self,
        cells: Seq<(Option<u64>, Seq<char>, Option<Num>)>,
    ) -> Result<Volume, Fault> {
        match self.grain {
            Grain::Minute => Ok(Volume::Unread),
            Grain::Quarter => match crate::paging::json_number_at(cells, 7) {
                Err(fault) => Err(fault),
                Ok(n) => Ok(Volume::Stated(n)),
            },
        }
    }

    fn read_row(&self, row: &Option<Vec<JsonCell>>) -> (r: Reading)
        ensures
            r == self.reading(crate::paging::json_row_view(*row)),
    {
        let cells = match row {
            Some(cells) => cells,
            None => {
                return Reading::Bad(Fault::NoKlineArray);
            },
        };
        if cells.len() == 0 {
            return Reading::Bad(Fault::Short);
        }
        let time = match cells[0].whole {
            Some(time) => time,
            None => {
                return Reading::Bad(Fault::NoOpenTime);
            },
        };
        let close = match read_json_number(cells, 4) {
            Ok(close) => close,
            Err(fault) => {
                return Reading::Bad(fault);
            },
        };
        let volume = match self.grain {
            Grain::Minute => Volume::Unread,
            Grain::Quarter => match read_json_number(cells, 7) {
                Ok(n) => Volume::Stated(n),
                Err(fault) => {
                    return Reading::Bad(fault);
                },
            },
        };
        Reading::Take(
            time,
            Candle { ts: snap_to(time / 1000, self.grain.step()), close, volume },
        )
    }

    /// What is made of the rows of a page.
    pub open spec fn readings(
        self,
        rows: Seq<Option<Seq<(Option<u64>, Seq<char>, Option<Num>)>>>,
    ) -> Seq<Reading> {
        rows.map_values(
            |row: Option<Seq<(Option<u64>, Seq<char>, Option<Num>)>>| self.reading(row),
        )
    }

    /// What follows from a page, and where the fetching stands then. The
    /// fetching ends with an empty page, with one that is not full, and with
    /// one that reaches the end of the window. Otherwise it goes on a step
    /// behind the newest candle, if there is such a time.
    pub open spec fn outcome(
        self,
        rows: Seq<Option<Seq<(Option<u64>, Seq<char>, Option<Num>)>>>,
    ) -> Result<(PageView, Binance), PageFault> {
        let readings = self.readings(rows);
        let next = crate::paging::newest(readings, self.start_ms) + crate::paging::step_of(
            self.grain,
        ) * 1000;
        if rows.len() == 0 {
            Ok((crate::paging::nothing(), self))
        } else if let Some(fault) = crate::paging::first_fault(readings) {
            Err(fault)
        } else {
            let candles = crate::paging::taken(readings);
            if rows.len() < FULL {
                Ok((PageView { candles, counted: rows.len(), progress: None, done: true }, self))
            } else if next > u64::MAX {
                Err(PageFault { row: rows.len() as usize, fault: Fault::Overflow })
            } else {
                Ok(
                    (
                        PageView {
                            candles,
                            counted: rows.len(),
                            progress: Some(
                                (
                                    (next - self.from * 1000) as u64,
                                    (self.to * 1000 - self.from * 1000) as u64,
                                ),
                            ),
                            done: next >= self.to * 1000,
                        },
                        Binance { start_ms: next as u64, ..self },
                    ),
                )
            }
        }
    }

    /// Takes a page. Where something is wrong with it, the fetching stands where
    /// it stood.
    pub fn accept(&mut self, rows: &Vec<Option<Vec<JsonCell>>>) -> (r: Result<Page, PageFault>)
        requires
            old(self).valid(),
        ensures
            final(self).valid(),
            match r {
                Ok(page) => old(self).outcome(crate::paging::json_row_views(rows@)) == Ok::<
                    (PageView, Binance),
                    PageFault,
                >((page@, *final(self))),
                Err(fault) => old(self).outcome(crate::paging::json_row_views(rows@)) == Err::<
                    (PageView, Binance),
                    PageFault,
                >(fault) && *final(self) == *old(self),
            },
    {
        if rows.len() == 0 {
            return Ok(no_page());
        }
        let ghost goal = self.readings(crate::paging::json_row_views(rows@));
        let mut readings: Vec<Reading> = Vec::new();
        let mut i: usize = 0;
        while i < rows.len()
            invariant
                i <= rows@.len(),
                *self == *old(self),
                goal == self.readings(crate::paging::json_row_views(rows@)),
                readings@ =~= goal.take(i as int),
            decreases rows.len() - i,
        {
            readings.push(self.read_row(&rows[i]));
            i = i + 1;
        }
        assert(readings@ =~= goal);
        let g = match gather(&readings, self.start_ms) {
            Ok(g) => g,
            Err(fault) => {
                return Err(fault);
            },
        };
        proof {
            crate::paging::newest_is_latest(goal, self.start_ms);
        }
        if rows.len() < FULL {
            return Ok(
                Page { candles: g.candles, counted: rows.len(), progress: None, done: true },
            );
        }
        let step_ms: u64 = self.grain.step() * 1000;
        if g.newest > u64::MAX - step_ms {
            return Err(PageFault { row: rows.len(), fault: Fault::Overflow });
        }
        self.start_ms = g.newest + step_ms;
        let end_ms: u64 = self.to * 1000;
        Ok(
            Page {
                candles: g.candles,
                counted: rows.len(),
                progress: Some((self.start_ms - self.from * 1000, end_ms - self.from * 1000)),
                done: self.start_ms >= end_ms,
            },
        )
    }

    /// The fetching goes on by at least a step with every page that is not the
    /// last.
    pub proof fn walks_on(
        self,
        rows: Seq<Option<Seq<(Option<u64>, Seq<char>, Option<Num>)>>>,
    )
        requires
            self.valid(),
        ensures
            self.outcome(rows) matches Ok((page, next)) ==> (!page.done ==> self.start_ms
                + crate::paging::step_of(self.grain) * 1000 <= next.start_ms < self.to * 1000),
    {
        crate::paging::newest_is_latest(self.readings(rows), self.start_ms);
    }

    /// A row is taken where, and only where, it is an array with a time and with
    /// the numbers that are needed. Its candle has the close and the volume of
    /// the row, and stands at the slot that holds the time.
    pub proof fn rows_are_read(self, row: Option<Seq<(Option<u64>, Seq<char>, Option<Num>)>>)
        ensures
            ({
                let r = self.reading(row);
                let step: int = if self.grain == Grain::Minute {
                    60
                } else {
                    900
                };
                &&& !(r is Skip)
                &&& r is Take <==> row is Some && row->Some_0.len() > 4 && row->Some_0[0].0 is Some
                    && row->Some_0[4].2 is Some && (self.grain == Grain::Quarter
                    ==> row->Some_0.len() > 7 && row->Some_0[7].2 is Some)
                &&& r matches Reading::Take(time, c) ==> {
                    &&& row->Some_0[0].0 == Some(time)
                    &&& row->Some_0[4].2 == Some(c.close)
                    &&& self.grain == Grain::Minute ==> c.volume == Volume::Unread
                    &&& self.grain == Grain::Quarter ==> c.volume == Volume::Stated(
                        row->Some_0[7].2->Some_0,
                    )
                    &&& c.ts as int % step == 0
                    &&& c.ts * 1000 <= time < (c.ts + step) * 1000
                }
            }),
    {
        if let Reading::Take(time, _) = self.reading(row) {
            crate::grid::slot_start_is_on_the_grid(
                (time / 1000) as nat,
                crate::paging::step_of(self.grain) as nat,
            );
        }
    }

    /// A page is refused for the first row with which something is wrong, or
    /// because the time to go on at does not fit in 64 bits. Otherwise every row
    /// counts, and gives its candle in its place.
    #[verifier::rlimit(60)]
    pub proof fn pages_are_read_row_by_row(
        self,
        rows: Seq<Option<Seq<(Option<u64>, Seq<char>, Option<Num>)>>>,
    )
        requires
            rows.len() <= usize::MAX,
        ensures
            match self.outcome(rows) {
                Ok((page, next)) => {
                    &&& page.counted == rows.len()
                    &&& page.candles.len() == rows.len()
                    &&& forall|i: int|
                        0 <= i < rows.len() ==> self.reading(#[trigger] rows[i]) is Take
                            && self.reading(rows[i])->Take_1 == page.candles[i]
                    &&& (next.grain, next.from, next.to) == (self.grain, self.from, self.to)
                },
                Err(f) => {
                    &&& f.fault == Fault::Overflow ==> f.row == rows.len()
                    &&& f.fault != Fault::Overflow ==> f.row < rows.len() && self.reading(
                        rows[f.row as int],
                    ) == Reading::Bad(f.fault)
                    &&& forall|i: int|
                        0 <= i < f.row ==> self.reading(#[trigger] rows[i]) is Take
                },
            },
    {
        let readings = self.readings(rows);
        assert forall|i: int| 0 <= i < rows.len() implies #[trigger] readings[i] == self.reading(
            rows[i],
        ) && !(readings[i] is Skip) && readings[i] != Reading::Bad(Fault::Overflow) by {
            self.rows_are_read(rows[i]);
        }
        crate::paging::the_first_fault_counts(readings);
        match crate::paging::first_fault(readings) {
            None => {
                lemma_all_taken(readings);
                assert forall|i: int| 0 <= i < rows.len() implies self.reading(
                    #[trigger] rows[i],
                ) is Take && self.reading(rows[i])->Take_1 == crate::paging::taken(
                    readings,
                )[i] by {
                    assert(readings[i] == self.reading(rows[i]));
                }
            },
            Some(f) => {
                assert forall|i: int| 0 <= i < f.row implies self.reading(
                    #[trigger] rows[i],
                ) is Take by {
                    assert(readings[i] == self.reading(rows[i]));
                }
            },
        }
    }

    /// Pages leave no gap: the next one starts one candle behind the newest of
    /// this one, and no candle of this one reaches beyond that.
    #[verifier::rlimit(60)]
    pub proof fn pages_adjoin(
        self,
        rows: Seq<Option<Seq<(Option<u64>, Seq<char>, Option<Num>)>>>,
    )
        requires
            self.valid(),
            rows.len() <= usize::MAX,
        ensures
            self.outcome(rows) matches Ok((page, next)) ==> {
                let length: int = if self.grain == Grain::Minute {
                    60_000
                } else {
                    900_000
                };
                &&& page.done <==> rows.len() < 1000 || next.start_ms >= self.to * 1000
                &&& rows.len() < 1000 ==> next == self && page.progress is None
                &&& rows.len() >= 1000 ==> {
                    let newest = next.start_ms - length;
                    &&& newest >= self.start_ms
                    &&& newest == self.start_ms || exists|i: int|
                        0 <= i < rows.len() && (#[trigger] rows[i])->Some_0[0].0 == Some(
                            newest as u64,
                        )
                    &&& forall|i: int|
                        0 <= i < rows.len() ==> (#[trigger] rows[i])->Some_0[0].0->Some_0 <= newest
                    &&& page.progress == Some(
                        (
                            (next.start_ms - self.from * 1000) as u64,
                            ((self.to - self.from) * 1000) as u64,
                        ),
                    )
                }
            },
    {
        let readings = self.readings(rows);
        self.pages_are_read_row_by_row(rows);
        assert forall|i: int| 0 <= i < rows.len() implies #[trigger] readings[i] == self.reading(
            rows[i],
        ) by {}
        crate::paging::newest_is_latest(readings, self.start_ms);
        if let Ok((page, next)) = self.outcome(rows) {
            if rows.len() >= 1000 {
                let newest = crate::paging::newest(readings, self.start_ms);
                assert forall|i: int| 0 <= i < rows.len() implies (
                #[trigger] rows[i])->Some_0[0].0->Some_0 <= newest by {
                    assert(self.reading(rows[i]) is Take);
                    assert(readings[i] is Take);
                    self.rows_are_read(rows[i]);
                }
                if newest != self.start_ms {
                    let i = choose|i: int|
                        0 <= i < readings.len() && #[trigger] readings[i] is Take
                            && readings[i]->Take_0 == newest;
                    self.rows_are_read(rows[i]);
                    assert(rows[i]->Some_0[0].0 == Some(newest));
                }
            }
        }
    }

    /// A page is asked for from where the fetching stands up to the end of the
    /// window, in candles of as many minutes as the grain has.
    #[verifier::rlimit(60)]
    pub proof fn pages_are_asked_for(self)
        requires
            self.valid(),
        ensures
            crate::paging::asks(
                self.url_words(),
                "&startTime="@,
                crate::text::decimal(self.start_ms as nat),
            ),
            crate::paging::asks(
                self.url_words(),
                "&endTime="@,
                crate::text::decimal((self.to * 1000) as nat),
            ),
            crate::paging::asks(
                self.url_words(),
                "&interval="@,
                crate::text::decimal(
                    if self.grain == Grain::Minute {
                        1
                    } else {
                        15
                    },
                ) + "m"@,
            ),
    {
        let site = "https://data-api.binance.vision/api/v3/klines?symbol=DOTUSDT"@;
        let from = crate::text::decimal(self.start_ms as nat);
        let to = crate::text::decimal((self.to * 1000) as nat);
        let words = interval_words(self.grain);
        reveal_strlit("https://data-api.binance.vision/api/v3/klines?symbol=DOTUSDT&interval=");
        reveal_strlit("https://data-api.binance.vision/api/v3/klines?symbol=DOTUSDT");
        reveal_strlit("&interval=");
        reveal_strlit("&startTime=");
        reveal_strlit("&endTime=");
        reveal_strlit("&limit=1000");
        reveal_strlit("1m");
        reveal_strlit("15m");
        reveal_strlit("m");
        reveal_with_fuel(crate::text::decimal, 2);
        assert("https://data-api.binance.vision/api/v3/klines?symbol=DOTUSDT&interval="@ =~= site
            + "&interval="@);
        assert(words =~= crate::text::decimal(
            if self.grain == Grain::Minute {
                1
            } else {
                15
            },
        ) + "m"@);
        let a = "&startTime="@ + from + "&endTime="@ + to + "&limit=1000"@;
        crate::paging::lemma_asks(site, "&interval="@, words, a);
        assert(self.url_words() =~= site + "&interval="@ + words + a);
        let b = "&endTime="@ + to + "&limit=1000"@;
        crate::paging::lemma_asks(site + "&interval="@ + words, "&startTime="@, from, b);
        assert(self.url_words() =~= site + "&interval="@ + words + "&startTime="@ + from + b);
        crate::paging::lemma_asks(
            site + "&interval="@ + words + "&startTime="@ + from,
            "&endTime="@,
            to,
            "&limit=1000"@,
        );
    }
}

} // verus!
