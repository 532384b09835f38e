//! Crypto.com hands out the candles between two times.

use vstd::prelude::*;
use vstd::string::*;

use crate::grid::snap_to;
use crate::number::Num;
use crate::paging::{
    gather, Candle, Cell, Fault, Grain, Page, PageFault, PageView, Reading, Volume,
};
use crate::text::push_decimal;

verus! {

/// How many candles a page holds at most.
pub const CANDLES: u64 = 300;

/// The cell of a row with the close.
pub const CLOSE: usize = 0;

/// The cell of a row with the volume.
pub const VOLUME: usize = 1;

/// A row of a page.
pub struct CryptoRow {
    /// When the candle starts, in milliseconds.
    pub time: u64,
    pub close: Cell,
    /// What was traded, in the base currency.
    pub volume: Cell,
}

/// What is read of a row: the time, and the numbers that the close and the
/// volume stand for.
pub open spec fn row_view(row: CryptoRow) -> (u64, Option<Num>, Option<Num>) {
    (row.time, row.close.number, row.volume.number)
}

/// What is read of the rows of a page.
pub open spec fn crypto_views(rows: Seq<CryptoRow>) -> Seq<(u64, Option<Num>, Option<Num>)> {
    rows.map_values(|r: CryptoRow| row_view(r))
}

/// Where the fetching stands.
#[derive(Clone, Copy, Debug, PartialEq, Eq, Structural)]
pub struct CryptoCom {
    pub grain: Grain,
    pub from: u64,
    pub to: u64,
    /// The next page starts with this time, in milliseconds.
    pub start_ms: u64,
}

/// What the interval of a candle is called.
pub open spec fn timeframe_words(grain: Grain) -> Seq<char> {
    match grain {
        Grain::Minute => "1m"@,
        Grain::Quarter => "15m"@,
    }
}

/// How much time a page covers, in milliseconds.
pub open spec fn chunk_ms(grain: Grain) -> int {
    crate::paging::step_of(grain) * 1000 * CANDLES
}

impl CryptoCom {
    /// Whether the fetching has not left the window, and its times in
    /// milliseconds and the end of a page fit in 64 bits. In a window that ends
    /// before it starts there is nothing to fetch.
    pub open spec fn valid(self) -> bool {
        &&& self.from * 1000 <= self.start_ms
        &&& self.to * 1000 <= u64::MAX
        &&& self.from < self.to ==> self.start_ms <= self.to * 1000 && self.to * 1000 + chunk_ms(
            self.grain,
        ) <= u64::MAX
    }

    /// Whether there is a page to ask for.
    pub open spec fn is_pending(self) -> bool {
        self.start_ms < self.to * 1000
    }

    /// Fetches the window from `from` up to `to`.
    pub fn new(grain: Grain, from: u64, to: u64) -> (r: CryptoCom)
        requires
            from * 1000 <= u64::MAX,
            to * 1000 <= u64::MAX,
            from < to ==> to * 1000 + chunk_ms(grain) <= u64::MAX,
        ensures
            r == (CryptoCom { grain, from, to, start_ms: (from * 1000) as u64 }),
            r.valid(),
            r.is_pending() <==> from < to,
    {
        CryptoCom { grain, from, to, start_ms: from * 1000 }
    }

    /// Says whether there is a page to ask for.
    pub fn pending(&self) -> (r: bool)
        requires
            self.valid(),
        ensures
            r == self.is_pending(),
    {
        self.start_ms < self.to * 1000
    }

    /// The end of the next page: as late as a page and the window allow.
    pub open spec fn end(self) -> u64 {
        if self.start_ms + chunk_ms(self.grain) < self.to * 1000 {
            (self.start_ms + chunk_ms(self.grain)) as u64
        } else {
            (self.to * 1000) as u64
        }
    }

    fn find_end(&self) -> (r: u64)
        requires
            self.valid(),
            self.is_pending(),
        ensures
            r == self.end(),
    {
        let end: u64 = self.start_ms + self.grain.step() * 1000 * CANDLES;
        if end < self.to * 1000 {
            end
        } else {
            self.to * 1000
        }
    }

    /// What to ask for.
    pub open spec fn url_words(self) -> Seq<char> {
        "https://api.crypto.com/exchange/v1/public/get-candlestick?instrument_name=DOT_USD&timeframe="@
            + timeframe_words(self.grain) + "&start_ts="@ + crate::text::decimal(
            self.start_ms as nat,
        ) + "&end_ts="@ + crate::text::decimal(self.end() as nat) + "&count=300"@
    }

    /// Says what to ask for.
    pub fn url(&self) -> (r: String)
        requires
            self.valid(),
            self.is_pending(),
        ensures
            r@ == self.url_words(),
    {
        let mut out =
            "https://api.crypto.com/exchange/v1/public/get-candlestick?instrument_name=DOT_USD&timeframe=".to_owned();
        match self.grain {
            Grain::Minute => {
                out.append("1m");
            },
            Grain::Quarter => {
                out.append("15m");
            },
        }
        out.append("&start_ts=");
        push_decimal(&mut out, self.start_ms);
        out.append("&end_ts=");
        push_decimal(&mut out, self.find_end());
        out.append("&count=300");
        out
    }

    /// What is made of a row. A candle that does not start in the window is
    /// skipped.
    pub open spec fn reading(self, row: (u64, Option<Num>, Option<Num>)) -> Reading {
        if row.0 < self.from * 1000 || row.0 >= self.to * 1000 {
            Reading::Skip
        } else {
            match row.1 {
                None => Reading::Bad(Fault::BadNumber(CLOSE)),
                Some(close) => match self.volume(close, row.2) {
                    Err(fault) => Reading::Bad(fault),
                    Ok(volume) => Reading::Take(
                        row.0,
                        Candle {
                            ts: crate::grid::slot_start(
                                (row.0 / 1000) as nat,
                                crate::paging::step_of(self.grain) as nat,
                            ) as u64,
                            close,
                            volume,
                        },
                    ),
                },
            }
        }
    }

    /// The volume of a candle, where it is to be read.
    pub open spec fn volume(self, close: Num, base: Option<Num>) -> Result<Volume, Fault> {
        match self.grain {
            Grain::Minute => Ok(Volume::Unread),
            Grain::Quarter => match base {
                None => Err(Fault::BadNumber(VOLUME)),
                Some(n) => Ok(Volume::Product(close, n)),
            },
        }
    }

    fn read_row(&self, row: &CryptoRow) -> (r: Reading)
        requires
            self.valid(),
        ensures
            r == self.reading(row_view(*row)),
    {
        if row.time < self.from * 1000 || row.time >= self.to * 1000 {
            return Reading::Skip;
        }
        let close = match row.close.number {
            Some(close) => close,
            None => {
                return Reading::Bad(Fault::BadNumber(CLOSE));
            },
        };
        let volume = match self.grain {
            Grain::Minute => Volume::Unread,
            Grain::Quarter => match row.volume.number {
                Some(n) => Volume::Product(close, n),
                None => {
                    return Reading::Bad(Fault::BadNumber(VOLUME));
                },
            },
        };
        Reading::Take(
            row.time,
            Candle { ts: snap_to(row.time / 1000, self.grain.step()), close, volume },
        )
    }

    /// What is made of the rows of a page.
    pub open spec fn readings(self, rows: Seq<(u64, Option<Num>, Option<Num>)>) -> Seq<Reading> {
        rows.map_values(|row: (u64, Option<Num>, Option<Num>)| self.reading(row))
    }

    /// What follows from a page, and where the fetching stands then. The
    /// fetching ends with the page that reaches the end of the window.
    pub open spec fn outcome(self, rows: Seq<(u64, Option<Num>, Option<Num>)>) -> Result<
        (PageView, CryptoCom),
        PageFault,
    > {
        let readings = self.readings(rows);
        if let Some(fault) = crate::paging::first_fault(readings) {
            Err(fault)
        } else {
            Ok(
                (
                    PageView {
                        candles: crate::paging::taken(readings),
                        counted: rows.len(),
                        progress: Some(
                            (
                                (self.end() - self.from * 1000) as u64,
                                (self.to * 1000 - self.from * 1000) as u64,
                            ),
                        ),
                        done: self.end() >= self.to * 1000,
                    },
                    CryptoCom { start_ms: self.end(), ..self },
                ),
            )
        }
    }

    /// Takes a page. Where something is wrong with it, the fetching stands where
    /// it stood.
    pub fn accept(&mut self, rows: &Vec<CryptoRow>) -> (r: Result<Page, PageFault>)
        requires
            old(self).valid(),
            old(self).is_pending(),
        ensures
            final(self).valid(),
            match r {
                Ok(page) => old(self).outcome(crypto_views(rows@)) == Ok::<
                    (PageView, CryptoCom),
                    PageFault,
                >((page@, *final(self))),
                Err(fault) => old(self).outcome(crypto_views(rows@)) == Err::<
                    (PageView, CryptoCom),
                    PageFault,
                >(fault) && *final(self) == *old(self),
            },
    {
        let ghost goal = self.readings(crypto_views(rows@));
        let mut readings: Vec<Reading> = Vec::new();
        let mut i: usize = 0;
        while i < rows.len()
            invariant
                i <= rows@.len(),
                self.valid(),
                self.is_pending(),
                *self == *old(self),
                goal == self.readings(crypto_views(rows@)),
                readings@ =~= goal.take(i as int),
            decreases rows.len() - i,
        {
            readings.push(self.read_row(&rows[i]));
            i = i + 1;
        }
        assert(readings@ =~= goal);
        let g = match gather(&readings, self.start_ms) {
            Ok(g) => g,
            Err(fault) => {
                return Err(fault);
            },
        };
        self.start_ms = self.find_end();
        let end_ms: u64 = self.to * 1000;
        Ok(
            Page {
                candles: g.candles,
                counted: rows.len(),
                progress: Some((self.start_ms - self.from * 1000, end_ms - self.from * 1000)),
                done: self.start_ms >= end_ms,
            },
        )
    }

    /// The fetching goes on with every page, and what it has covered is part of
    /// the window.
    pub proof fn walks_on(self, rows: Seq<(u64, Option<Num>, Option<Num>)>)
        requires
            self.valid(),
            self.is_pending(),
        ensures
            self.outcome(rows) matches Ok((page, next)) ==> {
                &&& self.start_ms < next.start_ms <= self.to * 1000
                &&& page.progress matches Some((covered, whole)) ==> covered <= whole
                &&& page.done <==> next.start_ms == self.to * 1000
            },
    {
    }

    /// The candles lie in the window.
    pub proof fn candles_lie_in_the_window(
        self,
        rows: Seq<(u64, Option<Num>, Option<Num>)>,
        k: int,
    )
        requires
            self.valid(),
            self.outcome(rows) is Ok,
            0 <= k < self.outcome(rows)->Ok_0.0.candles.len(),
        ensures
            ({
                let ts = self.outcome(rows)->Ok_0.0.candles[k].ts;
                crate::grid::slot_start(
                    self.from as nat,
                    crate::paging::step_of(self.grain) as nat,
                ) <= ts < self.to
            }),
    {
        let readings = self.readings(rows);
        let i = crate::paging::candles_come_from_rows(readings, k);
        assert(readings[i] == self.reading(rows[i]));
        let time = readings[i]->Take_0;
        let step = crate::paging::step_of(self.grain) as nat;
        crate::grid::slots_keep_the_order(self.from as nat, (time / 1000) as nat, step);
        crate::grid::slot_start_is_on_the_grid((time / 1000) as nat, step);
    }

    /// A page is asked for from where the fetching stands up to its end, in candles
    /// of as many minutes as the grain has.
    #[verifier::rlimit(60)]
    pub proof fn pages_are_asked_for(self)
        ensures
            crate::paging::asks(self.url_words(), "&timeframe="@, crate::text::decimal((if self.grain == Grain::Minute {
                    1
                } else {
                    15
                })) + "m"@),
            crate::paging::asks(self.url_words(), "&start_ts="@, crate::text::decimal(self.start_ms as nat)),
            crate::paging::asks(self.url_words(), "&end_ts="@, crate::text::decimal(self.end() as nat)),
    {
        reveal_strlit("https://api.crypto.com/exchange/v1/public/get-candlestick?instrument_name=DOT_USD&timeframe=");
        reveal_strlit("https://api.crypto.com/exchange/v1/public/get-candlestick?instrument_name=DOT_USD");
        reveal_strlit("&timeframe=");
        reveal_strlit("&start_ts=");
        reveal_strlit("&end_ts=");
        reveal_strlit("&count=300");
        reveal_strlit("m");
        reveal_strlit("1m");
        reveal_strlit("15m");
        reveal_with_fuel(crate::text::decimal, 3);
        let site = "https://api.crypto.com/exchange/v1/public/get-candlestick?instrument_name=DOT_USD"@;
        assert("https://api.crypto.com/exchange/v1/public/get-candlestick?instrument_name=DOT_USD&timeframe="@ =~= site + "&timeframe="@);
        let v0 = timeframe_words(self.grain);
        assert(v0 =~= crate::text::decimal((if self.grain == Grain::Minute {
                    1
                } else {
                    15
                })) + "m"@);
        let v1 = crate::text::decimal(self.start_ms as nat);
        let v2 = crate::text::decimal(self.end() as nat);
        crate::paging::lemma_asks(site, "&timeframe="@, v0, "&start_ts="@ + v1 + "&end_ts="@ + v2 + "&count=300"@);
        assert(self.url_words() =~= site + "&timeframe="@ + v0 + ("&start_ts="@ + v1 + "&end_ts="@ + v2 + "&count=300"@));
        crate::paging::lemma_asks(site + "&timeframe="@ + v0, "&start_ts="@, v1, "&end_ts="@ + v2 + "&count=300"@);
        assert(self.url_words() =~= site + "&timeframe="@ + v0 + "&start_ts="@ + v1 + ("&end_ts="@ + v2 + "&count=300"@));
        crate::paging::lemma_asks(site + "&timeframe="@ + v0 + "&start_ts="@ + v1, "&end_ts="@, v2, "&count=300"@);
        assert(self.url_words() =~= site + "&timeframe="@ + v0 + "&start_ts="@ + v1 + "&end_ts="@ + v2 + ("&count=300"@));
    }

    /// A page covers no more than three hundred candles and no time behind the
    /// window, and as much as that allows. The next one starts where it ends.
    pub proof fn pages_adjoin(self, rows: Seq<(u64, Option<Num>, Option<Num>)>)
        requires
            self.valid(),
            self.is_pending(),
        ensures
            self.outcome(rows) matches Ok((page, next)) ==> {
                let length: int = if self.grain == Grain::Minute {
                    18_000_000
                } else {
                    270_000_000
                };
                &&& next == (CryptoCom { start_ms: self.end(), ..self })
                &&& self.start_ms < self.end() <= self.to * 1000
                &&& self.end() <= self.start_ms + length
                &&& self.end() == self.to * 1000 || self.end() == self.start_ms + length
                &&& page.done <==> self.end() == self.to * 1000
                &&& page.progress == Some(
                    (
                        (self.end() - self.from * 1000) as u64,
                        ((self.to - self.from) * 1000) as u64,
                    ),
                )
            },
    {
    }

    /// A row that does not start in the window is skipped. Any other row is
    /// taken where, and only where, it has the numbers that are needed. Its
    /// candle has the close of the row, the volume that the close and the volume
    /// of the row make up, and stands at the slot that holds the time.
    pub proof fn rows_are_read(self, row: (u64, Option<Num>, Option<Num>))
        ensures
            ({
                let r = self.reading(row);
                let step: int = if self.grain == Grain::Minute {
                    60
                } else {
                    900
                };
                &&& r is Skip <==> row.0 < self.from * 1000 || row.0 >= self.to * 1000
                &&& r is Take <==> !(r is Skip) && row.1 is Some && (self.grain == Grain::Quarter
                    ==> row.2 is Some)
                &&& r matches Reading::Take(time, c) ==> {
                    &&& time == row.0
                    &&& row.1 == Some(c.close)
                    &&& self.grain == Grain::Minute ==> c.volume == Volume::Unread
                    &&& self.grain == Grain::Quarter ==> c.volume == Volume::Product(
                        c.close,
                        row.2->Some_0,
                    )
                    &&& c.ts as int % step == 0
                    &&& c.ts * 1000 <= time < (c.ts + step) * 1000
                }
            }),
    {
        if let Reading::Take(time, _) = self.reading(row) {
            crate::grid::slot_start_is_on_the_grid(
                (time / 1000) as nat,
                crate::paging::step_of(self.grain) as nat,
            );
        }
    }

    /// A page is refused for the first row with which something is wrong.
    /// Otherwise every row counts, and those that are taken give the candles.
    pub proof fn pages_are_read_row_by_row(self, rows: Seq<(u64, Option<Num>, Option<Num>)>)
        requires
            rows.len() <= usize::MAX,
        ensures
            match self.outcome(rows) {
                Ok((page, _)) => {
                    &&& page.counted == rows.len()
                    &&& page.candles == crate::paging::taken(
                        rows.map_values(|row: (u64, Option<Num>, Option<Num>)| self.reading(row)),
                    )
                    &&& forall|i: int|
                        0 <= i < rows.len() ==> !(self.reading(#[trigger] rows[i]) is Bad)
                },
                Err(f) => {
                    &&& f.row < rows.len()
                    &&& self.reading(rows[f.row as int]) == Reading::Bad(f.fault)
                    &&& forall|i: int|
                        0 <= i < f.row ==> !(self.reading(#[trigger] rows[i]) is Bad)
                },
            },
    {
        let readings = self.readings(rows);
        crate::paging::the_first_fault_counts(readings);
        let n = match crate::paging::first_fault(readings) {
            Some(f) => f.row as int,
            None => rows.len() as int,
        };
        assert forall|i: int| 0 <= i < n implies !(self.reading(#[trigger] rows[i]) is Bad) by {
            assert(readings[i] == self.reading(rows[i]));
        }
    }
}

} // verus!
