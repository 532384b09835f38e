//! Coinbase hands out the candles between two times.

use vstd::prelude::*;
use vstd::string::*;

use crate::grid::snap_to;
use crate::number::Num;
use crate::paging::{gather, Candle, Grain, Page, PageView, Reading, Volume};
use crate::text::push_decimal;

verus! {

/// How many candles a page holds at most.
pub const CANDLES: u64 = 300;

/// A number in a page.
#[derive(Clone, Copy, Debug, PartialEq, Eq, Structural)]
pub struct NumberCell {
    pub number: Num,
    /// The number without its fraction, as far as it fits in 64 bits.
    pub whole: u64,
}

/// Where the fetching stands.
#[derive(Clone, Copy, Debug, PartialEq, Eq, Structural)]
pub struct Coinbase {
    pub grain: Grain,
    pub from: u64,
    pub to: u64,
    /// The next page starts with this time.
    pub start: u64,
}

/// How much time a candle covers, in seconds, in words.
pub open spec fn granularity_words(grain: Grain) -> Seq<char> {
    match grain {
        Grain::Minute => "60"@,
        Grain::Quarter => "900"@,
    }
}

/// How much time a page covers, in seconds.
pub open spec fn chunk(grain: Grain) -> int {
    crate::paging::step_of(grain) * CANDLES
}

impl Coinbase {
    /// Whether the fetching has not left the window, and the end of a page fits
    /// in 64 bits. In a window that ends before it starts there is nothing to
    /// fetch.
    pub open spec fn valid(self) -> bool {
        &&& self.from <= self.start
        &&& self.from < self.to ==> self.start <= self.to && self.to + chunk(self.grain)
            <= u64::MAX
    }

    /// Whether there is a page to ask for.
    pub open spec fn is_pending(self) -> bool {
        self.start < self.to
    }

    /// Fetches the window from `from` up to `to`.
    pub fn new(grain: Grain, from: u64, to: u64) -> (r: Coinbase)
        requires
            from < to ==> to + chunk(grain) <= u64::MAX,
        ensures
            r == (Coinbase { grain, from, to, start: from }),
            r.valid(),
            r.is_pending() <==> from < to,
    {
        Coinbase { grain, from, to, start: from }
    }

    /// Says whether there is a page to ask for.
    pub fn pending(&self) -> (r: bool)
        ensures
            r == self.is_pending(),
    {
        self.start < self.to
    }

    /// The end of the next page: as late as a page and the window allow.
    pub open spec fn end(self) -> u64 {
        if self.start + chunk(self.grain) < self.to {
            (self.start + chunk(self.grain)) as u64
        } else {
            self.to
        }
    }

    fn find_end(&self) -> (r: u64)
        requires
            self.valid(),
            self.is_pending(),
        ensures
            r == self.end(),
    {
        let end: u64 = self.start + self.grain.step() * CANDLES;
        if end < self.to {
            end
        } else {
            self.to
        }
    }

    /// What to ask for.
    pub open spec fn url_words(self) -> Seq<char> {
        "https://api.exchange.coinbase.com/products/DOT-USD/candles?start="@
            + crate::text::decimal(self.start as nat) + "&end="@ + crate::text::decimal(
            self.end() as nat,
        ) + "&granularity="@ + granularity_words(self.grain)
    }

    /// Says what to ask for.
    pub fn url(&self) -> (r: String)
        requires
            self.valid(),
            self.is_pending(),
        ensures
            r@ == self.url_words(),
    {
        let mut out =
            "https://api.exchange.coinbase.com/products/DOT-USD/candles?start=".to_owned();
        push_decimal(&mut out, self.start);
        out.append("&end=");
        push_decimal(&mut out, self.find_end());
        out.append("&granularity=");
        match self.grain {
            Grain::Minute => {
                out.append("60");
            },
            Grain::Quarter => {
                out.append("900");
            },
        }
        out
    }

    /// What is made of a row: `[time, low, high, open, close, volume]`, the time
    /// in seconds, the volume in the base currency. A row that is too short and
    /// a candle that does not start in the window are skipped.
    pub open spec fn reading(self, row: Seq<NumberCell>) -> Reading {
        if row.len() < 6 || row[0].whole < self.from || row[0].whole >= self.to {
            Reading::Skip
        } else {
            Reading::Take(
                row[0].whole,
                Candle {
                    ts: crate::grid::slot_start(
                        row[0].whole as nat,
                        crate::paging::step_of(self.grain) as nat,
                    ) as u64,
                    close: row[4].number,
                    volume: match self.grain {
                        Grain::Minute => Volume::Unread,
                        Grain::Quarter => Volume::Product(row[4].number, row[5].number),
                    },
                },
            )
        }
    }

    fn read_row(&self, row: &Vec<NumberCell>) -> (r: Reading)
        ensures
            r == self.reading(row@),
    {
        if row.len() < 6 {
            return Reading::Skip;
        }
        let time: u64 = row[0].whole;
        if time < self.from || time >= self.to {
            return Reading::Skip;
        }
        let close = row[4].number;
        let volume = match self.grain {
            Grain::Minute => Volume::Unread,
            Grain::Quarter => Volume::Product(close, row[5].number),
        };
        Reading::Take(time, Candle { ts: snap_to(time, self.grain.step()), close, volume })
    }

    /// What is made of the rows of a page.
    pub open spec fn readings(self, rows: Seq<Vec<NumberCell>>) -> Seq<Reading> {
        rows.map_values(|row: Vec<NumberCell>| self.reading(row@))
    }

    /// What follows from a page, and where the fetching stands then. The
    /// fetching ends with the page that reaches the end of the window.
    pub open spec fn outcome(self, rows: Seq<Vec<NumberCell>>) -> (PageView, Coinbase) {
        (
            PageView {
                candles: crate::paging::taken(self.readings(rows)),
                counted: rows.len(),
                progress: Some(((self.end() - self.from) as u64, (self.to - self.from) as u64)),
                done: self.end() >= self.to,
            },
            Coinbase { start: self.end(), ..self },
        )
    }

    proof fn lemma_no_fault(self, rows: Seq<Vec<NumberCell>>)
        ensures
            crate::paging::first_fault(self.readings(rows)) is None,
        decreases rows.len(),
    {
        let readings = self.readings(rows);
        if rows.len() > 0 {
            assert(readings.drop_last() =~= self.readings(rows.drop_last()));
            self.lemma_no_fault(rows.drop_last());
            assert(readings.last() == self.reading(rows.last()@));
        }
    }

    /// Takes a page.
    pub fn accept(&mut self, rows: &Vec<Vec<NumberCell>>) -> (r: Page)
        requires
            old(self).valid(),
            old(self).is_pending(),
        ensures
            final(self).valid(),
            (r@, *final(self)) == old(self).outcome(rows@),
    {
        let ghost goal = self.readings(rows@);
        let mut readings: Vec<Reading> = Vec::new();
        let mut i: usize = 0;
        while i < rows.len()
            invariant
                i <= rows@.len(),
                *self == *old(self),
                goal == self.readings(rows@),
                readings@ =~= goal.take(i as int),
            decreases rows.len() - i,
        {
            readings.push(self.read_row(&rows[i]));
            i = i + 1;
        }
        assert(readings@ =~= goal);
        proof {
            self.lemma_no_fault(rows@);
        }
        let candles = match gather(&readings, self.start) {
            Ok(g) => g.candles,
            Err(_) => {
                assert(false);
                Vec::new()
            },
        };
        self.start = self.find_end();
        Page {
            candles,
            counted: rows.len(),
            progress: Some((self.start - self.from, self.to - self.from)),
            done: self.start >= self.to,
        }
    }

    /// The fetching goes on with every page, and what it has covered is part of
    /// the window.
    pub proof fn walks_on(self, rows: Seq<Vec<NumberCell>>)
        requires
            self.valid(),
            self.is_pending(),
        ensures
            self.start < self.outcome(rows).1.start <= self.to,
            self.outcome(rows).0.progress matches Some((covered, whole)) ==> covered <= whole,
            self.outcome(rows).0.done <==> self.outcome(rows).1.start == self.to,
    {
    }

    /// The candles lie in the window.
    pub proof fn candles_lie_in_the_window(self, rows: Seq<Vec<NumberCell>>, k: int)
        requires
            self.valid(),
            0 <= k < self.outcome(rows).0.candles.len(),
        ensures
            ({
                let ts = self.outcome(rows).0.candles[k].ts;
                crate::grid::slot_start(
                    self.from as nat,
                    crate::paging::step_of(self.grain) as nat,
                ) <= ts < self.to
            }),
    {
        let readings = self.readings(rows);
        let i = crate::paging::candles_come_from_rows(readings, k);
        assert(readings[i] == self.reading(rows[i]@));
        let time = readings[i]->Take_0;
        let step = crate::paging::step_of(self.grain) as nat;
        crate::grid::slots_keep_the_order(self.from as nat, time as nat, step);
        crate::grid::slot_start_is_on_the_grid(time as nat, step);
    }

    /// A page is asked for from where the fetching stands up to its end, in candles
    /// of as many seconds as the grain has.
    #[verifier::rlimit(60)]
    pub proof fn pages_are_asked_for(self)
        ensures
            crate::paging::asks(self.url_words(), "?start="@, crate::text::decimal(self.start as nat)),
            crate::paging::asks(self.url_words(), "&end="@, crate::text::decimal(self.end() as nat)),
            crate::paging::asks(self.url_words(), "&granularity="@, crate::text::decimal((if self.grain == Grain::Minute {
                    60
                } else {
                    900
                }))),
    {
        reveal_strlit("https://api.exchange.coinbase.com/products/DOT-USD/candles?start=");
        reveal_strlit("https://api.exchange.coinbase.com/products/DOT-USD/candles");
        reveal_strlit("?start=");
        reveal_strlit("&end=");
        reveal_strlit("&granularity=");
        reveal_strlit("60");
        reveal_strlit("900");
        reveal_with_fuel(crate::text::decimal, 4);
        let site = "https://api.exchange.coinbase.com/products/DOT-USD/candles"@;
        assert("https://api.exchange.coinbase.com/products/DOT-USD/candles?start="@ =~= site + "?start="@);
        let v0 = crate::text::decimal(self.start as nat);
        let v1 = crate::text::decimal(self.end() as nat);
        let v2 = granularity_words(self.grain);
        assert(v2 =~= crate::text::decimal((if self.grain == Grain::Minute {
                    60
                } else {
                    900
                })));
        crate::paging::lemma_asks(site, "?start="@, v0, "&end="@ + v1 + "&granularity="@ + v2);
        assert(self.url_words() =~= site + "?start="@ + v0 + ("&end="@ + v1 + "&granularity="@ + v2));
        crate::paging::lemma_asks(site + "?start="@ + v0, "&end="@, v1, "&granularity="@ + v2);
        assert(self.url_words() =~= site + "?start="@ + v0 + "&end="@ + v1 + ("&granularity="@ + v2));
        crate::paging::lemma_asks(site + "?start="@ + v0 + "&end="@ + v1, "&granularity="@, v2, Seq::<char>::empty());
        assert(self.url_words() =~= site + "?start="@ + v0 + "&end="@ + v1 + "&granularity="@ + v2 + (Seq::<char>::empty()));
    }

    /// A page covers no more than three hundred candles and no time behind the
    /// window, and as much as that allows. The next one starts where it ends.
    pub proof fn pages_adjoin(self, rows: Seq<Vec<NumberCell>>)
        requires
            self.valid(),
            self.is_pending(),
        ensures
            ({
                let (page, next) = self.outcome(rows);
                let length: int = if self.grain == Grain::Minute {
                    18_000
                } else {
                    270_000
                };
                &&& next == (Coinbase { start: self.end(), ..self })
                &&& self.start < self.end() <= self.to
                &&& self.end() <= self.start + length
                &&& self.end() == self.to || self.end() == self.start + length
                &&& page.done <==> self.end() == self.to
                &&& page.progress == Some(
                    ((self.end() - self.from) as u64, (self.to - self.from) as u64),
                )
            }),
    {
    }

    /// A row that is too short or does not start in the window is skipped, and
    /// any other row is taken. Its candle has the close of the row, the volume
    /// that the close and the volume of the row make up, and stands at the slot
    /// that holds the time.
    pub proof fn rows_are_read(self, row: Seq<NumberCell>)
        ensures
            ({
                let r = self.reading(row);
                let step: int = if self.grain == Grain::Minute {
                    60
                } else {
                    900
                };
                &&& !(r is Bad)
                &&& r is Take <==> row.len() >= 6 && self.from <= row[0].whole < self.to
                &&& r matches Reading::Take(time, c) ==> {
                    &&& time == row[0].whole
                    &&& c.close == row[4].number
                    &&& self.grain == Grain::Minute ==> c.volume == Volume::Unread
                    &&& self.grain == Grain::Quarter ==> c.volume == Volume::Product(
                        row[4].number,
                        row[5].number,
                    )
                    &&& c.ts as int % step == 0
                    &&& c.ts <= time < c.ts + step
                }
            }),
    {
        if let Reading::Take(time, _) = self.reading(row) {
            crate::grid::slot_start_is_on_the_grid(
                time as nat,
                crate::paging::step_of(self.grain) as nat,
            );
        }
    }

    /// Every row of a page counts, and those that are taken give the candles.
    pub proof fn pages_are_read_row_by_row(self, rows: Seq<Vec<NumberCell>>)
        ensures
            self.outcome(rows).0.counted == rows.len(),
            self.outcome(rows).0.candles == crate::paging::taken(
                rows.map_values(|row: Vec<NumberCell>| self.reading(row@)),
            ),
    {
    }
}

} // verus!
