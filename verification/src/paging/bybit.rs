//! Bybit hands out its candles from the newest to the oldest. A page holds those
//! up to a given time.

use vstd::prelude::*;
use vstd::string::*;

use crate::grid::snap_to;
use crate::number::Num;
use crate::paging::{
    gather, no_page, read_number, Candle, Cell, Fault, Grain, Page, PageFault, PageView, Reading,
    Volume,
};
use crate::text::{parse_u64, push_decimal};

verus! {

/// How many candles a full page holds.
pub const FULL: usize = 1000;

/// Where the fetching stands.
#[derive(Clone, Copy, Debug, PartialEq, Eq, Structural)]
pub struct Bybit {
    pub grain: Grain,
    pub from: u64,
    pub to: u64,
    /// The next page ends with this time, in milliseconds.
    pub end_ms: u64,
}

/// What the interval of a candle is called.
pub open spec fn interval_words(grain: Grain) -> Seq<char> {
    match grain {
        Grain::Minute => "1"@,
        Grain::Quarter => "15"@,
    }
}

impl Bybit {
    /// Whether the times in milliseconds fit in 64 bits and the fetching has
    /// not left the window.
    pub open spec fn valid(self) -> bool {
        &&& self.from * 1000 <= u64::MAX
        &&& self.to * 1000 <= u64::MAX
        &&& self.end_ms <= self.to * 1000
    }

    /// Fetches the window from `from` up to `to`.
    pub fn new(grain: Grain, from: u64, to: u64) -> (r: Bybit)
        requires
            from * 1000 <= u64::MAX,
            to * 1000 <= u64::MAX,
        ensures
            r == (Bybit { grain, from, to, end_ms: (to * 1000) as u64 }),
            r.valid(),
    {
        Bybit { grain, from, to, end_ms: to * 1000 }
    }

    /// What to ask for.
    pub open spec fn url_words(self) -> Seq<char> {
        "https://api.bybit.com/v5/market/kline?category=spot&symbol=DOTUSDT&interval="@ + interval_words(
            self.grain,
        ) + "&end="@ + crate::text::decimal(self.end_ms as nat) + "&limit=1000"@
    }

    /// Says what to ask for.
    pub fn url(&self) -> (r: String)
        ensures
            r@ == self.url_words(),
    {
        let mut out =
            "https://api.bybit.com/v5/market/kline?category=spot&symbol=DOTUSDT&interval=".to_owned();
        match self.grain {
            Grain::Minute => {
                out.append("1");
            },
            Grain::Quarter => {
                out.append("15");
            },
        }
        out.append("&end=");
        push_decimal(&mut out, self.end_ms);
        out.append("&limit=1000");
        out
    }

    /// What is made of a row: `[time, open, high, low, close, volume, turnover]`,
    /// the time in milliseconds. A row that is too short and a candle that does
    /// not start in the window are skipped.
    pub open spec fn reading(self, row: Seq<(Seq<char>, Option<Num>)>) -> Reading {
        if row.len() < 7 {
            Reading::Skip
        } else {
            match crate::text::parsed_u64(row[0].0) {
                Err(e) => Reading::Bad(Fault::BadTime(e)),
                Ok(time) => if time < self.from * 1000 || time >= self.to * 1000 {
                    Reading::Skip
                } else {
                    match crate::paging::number_at(row, 4) {
                        Err(fault) => Reading::Bad(fault),
                        Ok(close) => match self.volume(row) {
                            Err(fault) => Reading::Bad(fault),
                            Ok(volume) => Reading::Take(
                                time,
                                Candle {
                                    ts: crate::grid::slot_start(
                                        (time / 1000) as nat,
                                        crate::paging::step_of(self.grain) as nat,
                                    ) as u64,
                                    close,
                                    volume,
                                },
                            ),
                        },
                    }
                },
            }
        }
    }

    /// The volume in a row, where it is to be read.
    pub open spec fn volume(self, row: Seq<(Seq<char>, Option<Num>)>) -> Result<Volume, Fault> {
        match self.grain {
            Grain::Minute => Ok(Volume::Unread),
            Grain::Quarter => match crate::paging::number_at(row, 6) {
                Err(fault) => Err(fault),
                Ok(n) => Ok(Volume::Stated(n)),
            },
        }
    }

    fn read_row(&self, row: &Vec<Cell>) -> (r: Reading)
        requires
            self.valid(),
        ensures
            r == self.reading(crate::paging::cell_views(row@)),
    {
        if row.len() < 7 {
            return Reading::Skip;
        }
        let time = match parse_u64(row[0].text.as_str()) {
            Ok(time) => time,
            Err(e) => {
                return Reading::Bad(Fault::BadTime(e));
            },
        };
        if time < self.from * 1000 || time >= self.to * 1000 {
            return Reading::Skip;
        }
        let close = match read_number(row, 4) {
            Ok(close) => close,
            Err(fault) => {
                return Reading::Bad(fault);
            },
        };
        let volume = match self.grain {
            Grain::Minute => Volume::Unread,
            Grain::Quarter => match read_number(row, 6) {
                Ok(n) => Volume::Stated(n),
                Err(fault) => {
                    return Reading::Bad(fault);
                },
            },
        };
        Reading::Take(
            time,
            Candle { ts: snap_to(time / 1000, self.grain.step()), close, volume },
        )
    }

    /// What is made of the rows of a page.
    pub open spec fn readings(self, rows: Seq<Seq<(Seq<char>, Option<Num>)>>) -> Seq<Reading> {
        rows.map_values(|row: Seq<(Seq<char>, Option<Num>)>| self.reading(row))
    }

    /// What follows from a page, and where the fetching stands then. The
    /// fetching ends with an empty page, with one that is not full, and with
    /// one that reaches the start of the window.
    pub open spec fn outcome(self, rows: Seq<Seq<(Seq<char>, Option<Num>)>>) -> Result<
        (PageView, Bybit),
        PageFault,
    > {
        let readings = self.readings(rows);
        let first = crate::paging::oldest(readings, self.end_ms);
        if rows.len() == 0 {
            Ok((crate::paging::nothing(), self))
        } else if let Some(fault) = crate::paging::first_fault(readings) {
            Err(fault)
        } else {
            let candles = crate::paging::taken(readings);
            if first <= self.from * 1000 || rows.len() < FULL {
                Ok((PageView { candles, counted: rows.len(), progress: None, done: true }, self))
            } else {
                Ok(
                    (
                        PageView {
                            candles,
                            counted: rows.len(),
                            progress: Some(
                                (
                                    (self.to * 1000 - (first - 1)) as u64,
                                    (self.to * 1000 - self.from * 1000) as u64,
                                ),
                            ),
                            done: false,
                        },
                        Bybit { end_ms: (first - 1) as u64, ..self },
                    ),
                )
            }
        }
    }

    /// Takes a page. Where something is wrong with it, the fetching stands where
    /// it stood.
    pub fn accept(&mut self, rows: &Vec<Vec<Cell>>) -> (r: Result<Page, PageFault>)
        requires
            old(self).valid(),
        ensures
            final(self).valid(),
            match r {
                Ok(page) => old(self).outcome(crate::paging::row_views(rows@)) == Ok::<
                    (PageView, Bybit),
                    PageFault,
                >((page@, *final(self))),
                Err(fault) => old(self).outcome(crate::paging::row_views(rows@)) == Err::<
                    (PageView, Bybit),
                    PageFault,
                >(fault) && *final(self) == *old(self),
            },
    {
        if rows.len() == 0 {
            return Ok(no_page());
        }
        let ghost goal = self.readings(crate::paging::row_views(rows@));
        let mut readings: Vec<Reading> = Vec::new();
        let mut i: usize = 0;
        while i < rows.len()
            invariant
                i <= rows@.len(),
                self.valid(),
                *self == *old(self),
                goal == self.readings(crate::paging::row_views(rows@)),
                readings@ =~= goal.take(i as int),
            decreases rows.len() - i,
        {
            readings.push(self.read_row(&rows[i]));
            i = i + 1;
        }
        assert(readings@ =~= goal);
        let g = match gather(&readings, self.end_ms) {
            Ok(g) => g,
            Err(fault) => {
                return Err(fault);
            },
        };
        proof {
            crate::paging::oldest_is_earliest(goal, self.end_ms);
        }
        if g.oldest <= self.from * 1000 || rows.len() < FULL {
            return Ok(
                Page { candles: g.candles, counted: rows.len(), progress: None, done: true },
            );
        }
        self.end_ms = g.oldest - 1;
        Ok(
            Page {
                candles: g.candles,
                counted: rows.len(),
                progress: Some((self.to * 1000 - self.end_ms, self.to * 1000 - self.from * 1000)),
                done: false,
            },
        )
    }

    /// The fetching goes back with every page that is not the last, and what it
    /// has covered is part of the window.
    pub proof fn walks_back(self, rows: Seq<Seq<(Seq<char>, Option<Num>)>>)
        requires
            self.valid(),
        ensures
            self.outcome(rows) matches Ok((page, next)) ==> {
                &&& !page.done ==> self.from * 1000 <= next.end_ms < self.end_ms
                &&& page.progress matches Some((covered, whole)) ==> covered <= whole
            },
    {
        crate::paging::oldest_is_earliest(self.readings(rows), self.end_ms);
    }

    /// The candles lie in the window.
    pub proof fn candles_lie_in_the_window(
        self,
        rows: Seq<Seq<(Seq<char>, Option<Num>)>>,
        k: int,
    )
        requires
            self.valid(),
            self.outcome(rows) is Ok,
            0 <= k < self.outcome(rows)->Ok_0.0.candles.len(),
        ensures
            ({
                let ts = self.outcome(rows)->Ok_0.0.candles[k].ts;
                crate::grid::slot_start(
                    self.from as nat,
                    crate::paging::step_of(self.grain) as nat,
                ) <= ts < self.to
            }),
    {
        let readings = self.readings(rows);
        let i = crate::paging::candles_come_from_rows(readings, k);
        assert(readings[i] == self.reading(rows[i]));
        let time = readings[i]->Take_0;
        let step = crate::paging::step_of(self.grain) as nat;
        crate::grid::slots_keep_the_order(self.from as nat, (time / 1000) as nat, step);
        crate::grid::slot_start_is_on_the_grid((time / 1000) as nat, step);
    }

    /// A row that is too short or does not start in the window is skipped. Any other row is taken where, and only where,
    /// it has the numbers that are needed. Its candle has the close and the
    /// volume of the row, and stands at the slot that holds the time.
    pub proof fn rows_are_read(self, row: Seq<(Seq<char>, Option<Num>)>)
        ensures
            ({
                let r = self.reading(row);
                let step: int = if self.grain == Grain::Minute {
                    60
                } else {
                    900
                };
                let time = crate::text::parsed_u64(row[0].0);
                &&& row.len() < 7 ==> r is Skip
                &&& row.len() >= 7 ==> match time {
                    Err(e) => r == Reading::Bad(Fault::BadTime(e)),
                    Ok(time) => if self.from * 1000 <= time < self.to * 1000 {
                        &&& !(r is Skip)
                        &&& r is Take <==> row[4].1 is Some && (self.grain == Grain::Quarter
                            ==> row[6].1 is Some)
                    } else {
                        r is Skip
                    },
                }
                &&& r matches Reading::Take(time, c) ==> {
                    &&& crate::text::parsed_u64(row[0].0) == Ok::<
                        u64,
                        crate::text::IntError,
                    >(time)
                    &&& row[4].1 == Some(c.close)
                    &&& self.grain == Grain::Minute ==> c.volume == Volume::Unread
                    &&& self.grain == Grain::Quarter ==> c.volume == Volume::Stated(
                        row[6].1->Some_0,
                    )
                    &&& c.ts as int % step == 0
                    &&& c.ts * 1000 <= time < (c.ts + step) * 1000
                }
            }),
    {
        if let Reading::Take(time, _) = self.reading(row) {
            crate::grid::slot_start_is_on_the_grid(
                (time / 1000) as nat,
                crate::paging::step_of(self.grain) as nat,
            );
        }
    }

    /// A page is refused for the first row with which something is wrong.
    /// Otherwise every row counts, and those that are taken give the candles.
    pub proof fn pages_are_read_row_by_row(self, rows: Seq<Seq<(Seq<char>, Option<Num>)>>)
        requires
            rows.len() <= usize::MAX,
        ensures
            match self.outcome(rows) {
                Ok((page, next)) => {
                    &&& page.counted == rows.len()
                    &&& page.candles == crate::paging::taken(
                        rows.map_values(|row: Seq<(Seq<char>, Option<Num>)>| self.reading(row)),
                    )
                    &&& forall|i: int|
                        0 <= i < rows.len() ==> !(self.reading(#[trigger] rows[i]) is Bad)
                    &&& (next.grain, next.from, next.to) == (self.grain, self.from, self.to)
                },
                Err(f) => {
                    &&& f.row < rows.len()
                    &&& self.reading(rows[f.row as int]) == Reading::Bad(f.fault)
                    &&& forall|i: int|
                        0 <= i < f.row ==> !(self.reading(#[trigger] rows[i]) is Bad)
                },
            },
    {
        let readings = self.readings(rows);
        crate::paging::the_first_fault_counts(readings);
        let n = match crate::paging::first_fault(readings) {
            Some(f) => f.row as int,
            None => rows.len() as int,
        };
        assert forall|i: int| 0 <= i < n implies !(self.reading(#[trigger] rows[i]) is Bad) by {
            assert(readings[i] == self.reading(rows[i]));
        }
        if rows.len() == 0 {
            assert(readings =~= Seq::empty());
        }
    }

    /// Pages leave no gap: the next one ends right before the oldest candle of
    /// this one. A page is the last one where it is
    /// not full, or reaches the start of the window.
    #[verifier::rlimit(60)]
    pub proof fn pages_adjoin(self, rows: Seq<Seq<(Seq<char>, Option<Num>)>>)
        requires
            self.valid(),
            rows.len() <= usize::MAX,
        ensures
            self.outcome(rows) matches Ok((page, next)) ==> {
                &&& page.done <==> rows.len() < 1000 || self.end_ms <= self.from * 1000 || exists|i: int|
                    0 <= i < rows.len() && self.reading(#[trigger] rows[i]) is Take && self.reading(
                        rows[i],
                    )->Take_0 <= self.from * 1000
                &&& page.done ==> next == self && page.progress is None
                &&& !page.done ==> {
                    let oldest = next.end_ms + 1;
                    &&& oldest <= self.end_ms
                    &&& oldest == self.end_ms || exists|i: int|
                        0 <= i < rows.len() && self.reading(#[trigger] rows[i]) is Take
                            && self.reading(rows[i])->Take_0 == oldest
                    &&& forall|i: int|
                        0 <= i < rows.len() && self.reading(#[trigger] rows[i]) is Take
                            ==> self.reading(rows[i])->Take_0 >= oldest
                    &&& page.progress == Some(
                        (
                            (self.to * 1000 - next.end_ms) as u64,
                            (self.to * 1000 - self.from * 1000) as u64,
                        ),
                    )
                }
            },
    {
        let readings = self.readings(rows);
        self.pages_are_read_row_by_row(rows);
        crate::paging::oldest_is_earliest(readings, self.end_ms);
        let oldest = crate::paging::oldest(readings, self.end_ms);
        assert forall|i: int|
            0 <= i < rows.len() && self.reading(#[trigger] rows[i]) is Take implies self.reading(
            rows[i],
        )->Take_0 >= oldest by {
            assert(readings[i] == self.reading(rows[i]));
        }
        if oldest != self.end_ms {
            let i = choose|i: int|
                0 <= i < readings.len() && #[trigger] readings[i] is Take && readings[i]->Take_0
                    == oldest;
            assert(self.reading(rows[i]) is Take);
        }
    }

    /// A page is asked for up to where the fetching stands, in candles of as many
    /// minutes as the grain has.
    pub proof fn pages_are_asked_for(self)
        ensures
            crate::paging::asks(self.url_words(), "&interval="@, crate::text::decimal((if self.grain == Grain::Minute {
                    1
                } else {
                    15
                }))),
            crate::paging::asks(self.url_words(), "&end="@, crate::text::decimal(self.end_ms as nat)),
    {
        reveal_strlit("https://api.bybit.com/v5/market/kline?category=spot&symbol=DOTUSDT&interval=");
        reveal_strlit("https://api.bybit.com/v5/market/kline?category=spot&symbol=DOTUSDT");
        reveal_strlit("&interval=");
        reveal_strlit("&end=");
        reveal_strlit("&limit=1000");
        reveal_strlit("1");
        reveal_strlit("15");
        reveal_with_fuel(crate::text::decimal, 3);
        let site = "https://api.bybit.com/v5/market/kline?category=spot&symbol=DOTUSDT"@;
        assert("https://api.bybit.com/v5/market/kline?category=spot&symbol=DOTUSDT&interval="@ =~= site + "&interval="@);
        let v0 = interval_words(self.grain);
        assert(v0 =~= crate::text::decimal((if self.grain == Grain::Minute {
                    1
                } else {
                    15
                })));
        let v1 = crate::text::decimal(self.end_ms as nat);
        crate::paging::lemma_asks(site, "&interval="@, v0, "&end="@ + v1 + "&limit=1000"@);
        assert(self.url_words() =~= site + "&interval="@ + v0 + ("&end="@ + v1 + "&limit=1000"@));
        crate::paging::lemma_asks(site + "&interval="@ + v0, "&end="@, v1, "&limit=1000"@);
        assert(self.url_words() =~= site + "&interval="@ + v0 + "&end="@ + v1 + ("&limit=1000"@));
    }
}

} // verus!
