//! What the exchanges answer when they are asked for their price, or for what
//! was traded in a day.

use vstd::prelude::*;

use crate::number::Num;
use crate::paging::Cell;
use crate::venue::Venue;

verus! {

/// A figure that arithmetic has to give.
#[derive(Clone, Copy, Debug, PartialEq, Eq, Structural)]
pub enum Figure {
    /// Known already.
    Stated(Num),
    /// The product of two numbers.
    Product(Num, Num),
    /// The first number divided by the second.
    Quotient(Num, Num),
}

/// What was traded in a day.
#[derive(Clone, Copy, Debug, PartialEq, Eq, Structural)]
pub struct DayFigures {
    /// The price weighted by volume.
    pub vwap: Figure,
    /// The volume in the quote currency.
    pub quote_volume: Figure,
}

/// Why an answer is of no use.
pub enum TickerFault {
    /// There is no ticker.
    EmptyData,
    /// There is no ticker in the list.
    EmptyList,
    /// There is no ticker in the array.
    EmptyTickers,
    /// There is no pair.
    EmptyResult,
    /// There is no last price.
    NoClose,
    /// There is no price weighted by volume.
    NoVwap,
    /// There is no volume.
    NoVolume,
    /// Nothing was traded.
    ZeroBase,
    /// The text is no number.
    BadNumber(Seq<char>),
}

/// Why an answer is of no use.
pub enum TickerError {
    EmptyData,
    EmptyList,
    EmptyTickers,
    EmptyResult,
    NoClose,
    NoVwap,
    NoVolume,
    ZeroBase,
    BadNumber(String),
}

impl View for TickerError {
    type V = TickerFault;

    open spec fn view(&self) -> TickerFault {
        match *self {
            TickerError::EmptyData => TickerFault::EmptyData,
            TickerError::EmptyList => TickerFault::EmptyList,
            TickerError::EmptyTickers => TickerFault::EmptyTickers,
            TickerError::EmptyResult => TickerFault::EmptyResult,
            TickerError::NoClose => TickerFault::NoClose,
            TickerError::NoVwap => TickerFault::NoVwap,
            TickerError::NoVolume => TickerFault::NoVolume,
            TickerError::ZeroBase => TickerFault::ZeroBase,
            TickerError::BadNumber(text) => TickerFault::BadNumber(text@),
        }
    }
}

/// What an error is called. A text that is no number speaks for itself.
pub open spec fn ticker_words(fault: TickerFault) -> Option<Seq<char>> {
    match fault {
        TickerFault::EmptyData => Some("empty data array"@),
        TickerFault::EmptyList => Some("empty list"@),
        TickerFault::EmptyTickers => Some("empty ticker array"@),
        TickerFault::EmptyResult => Some("empty result map"@),
        TickerFault::NoClose => Some("missing close price"@),
        TickerFault::NoVwap => Some("missing 24h VWAP"@),
        TickerFault::NoVolume => Some("missing 24h volume"@),
        TickerFault::ZeroBase => Some("zero base volume; cannot compute VWAP"@),
        TickerFault::BadNumber(_) => None,
    }
}

impl TickerError {
    /// Names the error.
    pub fn message(&self) -> (r: Option<&'static str>)
        ensures
            match r {
                Some(s) => ticker_words(self@) == Some(s@),
                None => ticker_words(self@) is None,
            },
    {
        match self {
            TickerError::EmptyData => Some("empty data array"),
            TickerError::EmptyList => Some("empty list"),
            TickerError::EmptyTickers => Some("empty ticker array"),
            TickerError::EmptyResult => Some("empty result map"),
            TickerError::NoClose => Some("missing close price"),
            TickerError::NoVwap => Some("missing 24h VWAP"),
            TickerError::NoVolume => Some("missing 24h volume"),
            TickerError::ZeroBase => Some("zero base volume; cannot compute VWAP"),
            TickerError::BadNumber(_) => None,
        }
    }
}

/// The result of reading an answer, with an error by what it says.
pub open spec fn seen<T>(r: Result<T, TickerError>) -> Result<T, TickerFault> {
    match r {
        Ok(t) => Ok(t),
        Err(e) => Err(e@),
    }
}

// ---------------------------------------------------------------------------
// Prices
// ---------------------------------------------------------------------------

/// The price that a cell holds.
pub open spec fn price_in(cell: Cell) -> Result<Num, TickerFault> {
    match cell.number {
        Some(n) => Ok(n),
        None => Err(TickerFault::BadNumber(cell.text@)),
    }
}

/// Reads the price that a cell holds: the whole answer of Binance, Coinbase and
/// KuCoin.
pub fn read_price(cell: &Cell) -> (r: Result<Num, TickerError>)
    ensures
        seen(r) == price_in(*cell),
{
    match cell.number {
        Some(n) => Ok(n),
        None => Err(TickerError::BadNumber(cell.text.clone())),
    }
}

/// What OKX, Bybit, Crypto.com and Gate.io say of a pair.
pub struct Ticker {
    pub last: Cell,
    /// The volume of a day, in the base currency.
    pub base: Cell,
    /// The volume of a day, in the quote currency.
    pub quote: Cell,
}

/// What an answer without a ticker means.
pub open spec fn empty_answer(v: Venue) -> TickerFault {
    match v {
        Venue::Bybit => TickerFault::EmptyList,
        Venue::Gate => TickerFault::EmptyTickers,
        _ => TickerFault::EmptyData,
    }
}

fn refuse_empty(v: Venue) -> (r: TickerError)
    ensures
        r@ == empty_answer(v),
{
    match v {
        Venue::Bybit => TickerError::EmptyList,
        Venue::Gate => TickerError::EmptyTickers,
        _ => TickerError::EmptyData,
    }
}

/// The price in a list of tickers: that of the first.
pub open spec fn first_price(v: Venue, tickers: Seq<Ticker>) -> Result<Num, TickerFault> {
    if tickers.len() == 0 {
        Err(empty_answer(v))
    } else {
        price_in(tickers[0].last)
    }
}

/// Reads the price in a list of tickers.
pub fn read_first_price(v: Venue, tickers: &Vec<Ticker>) -> (r: Result<Num, TickerError>)
    ensures
        seen(r) == first_price(v, tickers@),
{
    if tickers.len() == 0 {
        return Err(refuse_empty(v));
    }
    read_price(&tickers[0].last)
}

/// What Kraken says of a pair.
pub struct KrakenPair {
    /// The last trade: its price, then its volume.
    pub close: Vec<Cell>,
    /// The volume in the base currency: of today, then of the last day.
    pub volume: Vec<Cell>,
    /// The price weighted by volume: of today, then of the last day.
    pub vwap: Vec<Cell>,
}

/// The price of the one pair that Kraken speaks of.
pub open spec fn kraken_price(pair: Option<KrakenPair>) -> Result<Num, TickerFault> {
    match pair {
        None => Err(TickerFault::EmptyResult),
        Some(p) => if p.close@.len() == 0 {
            Err(TickerFault::NoClose)
        } else {
            price_in(p.close@[0])
        },
    }
}

/// Reads the price of the one pair that Kraken speaks of.
pub fn read_kraken_price(pair: &Option<KrakenPair>) -> (r: Result<Num, TickerError>)
    ensures
        seen(r) == kraken_price(*pair),
{
    match pair {
        None => Err(TickerError::EmptyResult),
        Some(p) => {
            if p.close.len() == 0 {
                return Err(TickerError::NoClose);
            }
            read_price(&p.close[0])
        },
    }
}

// ---------------------------------------------------------------------------
// What was traded in a day
// ---------------------------------------------------------------------------

/// The price weighted by volume: what was traded in the quote currency divided
/// by what was traded in the base currency. There is none where nothing was
/// traded.
pub open spec fn weighted_price(base: Num, quote: Num) -> Result<Figure, TickerFault> {
    if !base.is_nan() && base.position() <= 0 {
        Err(TickerFault::ZeroBase)
    } else {
        Ok(Figure::Quotient(quote, base))
    }
}

/// Finds the price weighted by volume.
pub fn vwap_from(base: Num, quote: Num) -> (r: Result<Figure, TickerError>)
    ensures
        seen(r) == weighted_price(base, quote),
{
    if base.at_most_zero() {
        return Err(TickerError::ZeroBase);
    }
    Ok(Figure::Quotient(quote, base))
}

/// What was traded in a day, from the volumes in both currencies.
pub open spec fn day_from_volumes(base: Cell, quote: Cell) -> Result<DayFigures, TickerFault> {
    match (price_in(base), price_in(quote)) {
        (Err(fault), _) => Err(fault),
        (_, Err(fault)) => Err(fault),
        (Ok(b), Ok(q)) => match weighted_price(b, q) {
            Err(fault) => Err(fault),
            Ok(vwap) => Ok(DayFigures { vwap, quote_volume: Figure::Stated(q) }),
        },
    }
}

/// Reads the volumes in both currencies: the whole answer of KuCoin.
pub fn read_volumes(base: &Cell, quote: &Cell) -> (r: Result<DayFigures, TickerError>)
    ensures
        seen(r) == day_from_volumes(*base, *quote),
{
    match read_price(base) {
        Err(e) => Err(e),
        Ok(b) => match read_price(quote) {
            Err(e) => Err(e),
            Ok(q) => match vwap_from(b, q) {
                Err(e) => Err(e),
                Ok(vwap) => Ok(DayFigures { vwap, quote_volume: Figure::Stated(q) }),
            },
        },
    }
}

/// What was traded in a day according to a list of tickers.
pub open spec fn first_day(v: Venue, tickers: Seq<Ticker>) -> Result<DayFigures, TickerFault> {
    if tickers.len() == 0 {
        Err(empty_answer(v))
    } else {
        day_from_volumes(tickers[0].base, tickers[0].quote)
    }
}

/// Reads what was traded in a day from a list of tickers.
pub fn read_first_day(v: Venue, tickers: &Vec<Ticker>) -> (r: Result<DayFigures, TickerError>)
    ensures
        seen(r) == first_day(v, tickers@),
{
    if tickers.len() == 0 {
        return Err(refuse_empty(v));
    }
    read_volumes(&tickers[0].base, &tickers[0].quote)
}

/// What was traded in a day according to Binance, which states both figures.
pub open spec fn binance_day(vwap: Cell, quote: Cell) -> Result<DayFigures, TickerFault> {
    match (price_in(vwap), price_in(quote)) {
        (Err(fault), _) => Err(fault),
        (_, Err(fault)) => Err(fault),
        (Ok(p), Ok(q)) => Ok(
            DayFigures { vwap: Figure::Stated(p), quote_volume: Figure::Stated(q) },
        ),
    }
}

/// Reads what was traded in a day according to Binance.
pub fn read_binance_day(vwap: &Cell, quote: &Cell) -> (r: Result<DayFigures, TickerError>)
    ensures
        seen(r) == binance_day(*vwap, *quote),
{
    match read_price(vwap) {
        Err(e) => Err(e),
        Ok(p) => match read_price(quote) {
            Err(e) => Err(e),
            Ok(q) => Ok(DayFigures { vwap: Figure::Stated(p), quote_volume: Figure::Stated(q) }),
        },
    }
}

/// A price weighted by volume, and the volume in the base currency, which
/// together make up the volume in the quote currency.
pub open spec fn day_from_price(price: Cell, base: Cell) -> Result<DayFigures, TickerFault> {
    match (price_in(price), price_in(base)) {
        (Err(fault), _) => Err(fault),
        (_, Err(fault)) => Err(fault),
        (Ok(p), Ok(b)) => Ok(
            DayFigures { vwap: Figure::Stated(p), quote_volume: Figure::Product(p, b) },
        ),
    }
}

/// Reads a price and the volume in the base currency: the whole answer of
/// Coinbase, whose last price stands for the weighted one.
pub fn read_price_and_base(price: &Cell, base: &Cell) -> (r: Result<DayFigures, TickerError>)
    ensures
        seen(r) == day_from_price(*price, *base),
{
    match read_price(price) {
        Err(e) => Err(e),
        Ok(p) => match read_price(base) {
            Err(e) => Err(e),
            Ok(b) => Ok(
                DayFigures { vwap: Figure::Stated(p), quote_volume: Figure::Product(p, b) },
            ),
        },
    }
}

/// What was traded in the last day of the one pair that Kraken speaks of.
pub open spec fn kraken_day(pair: Option<KrakenPair>) -> Result<DayFigures, TickerFault> {
    match pair {
        None => Err(TickerFault::EmptyResult),
        Some(p) => if p.vwap@.len() < 2 {
            Err(TickerFault::NoVwap)
        } else if p.volume@.len() < 2 {
            Err(TickerFault::NoVolume)
        } else {
            day_from_price(p.vwap@[1], p.volume@[1])
        },
    }
}

/// Reads what was traded in the last day of the one pair that Kraken speaks of.
pub fn read_kraken_day(pair: &Option<KrakenPair>) -> (r: Result<DayFigures, TickerError>)
    ensures
        seen(r) == kraken_day(*pair),
{
    match pair {
        None => Err(TickerError::EmptyResult),
        Some(p) => {
            if p.vwap.len() < 2 {
                return Err(TickerError::NoVwap);
            }
            if p.volume.len() < 2 {
                return Err(TickerError::NoVolume);
            }
            read_price_and_base(&p.vwap[1], &p.volume[1])
        },
    }
}


// ---------------------------------------------------------------------------
// What holds of every exchange
// ---------------------------------------------------------------------------

/// A cell gives the number that it holds, and is refused with its text where it
/// holds none.
pub proof fn prices_are_the_numbers_of_their_cells(cell: Cell)
    ensures
        cell.number matches Some(n) ==> price_in(cell) == Ok::<Num, TickerFault>(n),
        cell.number is None ==> price_in(cell) == Err::<Num, TickerFault>(
            TickerFault::BadNumber(cell.text@),
        ),
{
}

/// A weighted price is what was traded in the quote currency by what was traded
/// in the base currency. There is none where the latter is zero or less.
pub proof fn weighted_prices_are_quote_by_base(base: Num, quote: Num)
    ensures
        crate::number::zero().below(base) || base.is_nan() ==> weighted_price(base, quote) == Ok::<
            Figure,
            TickerFault,
        >(Figure::Quotient(quote, base)),
        !crate::number::zero().below(base) && !base.is_nan() ==> weighted_price(base, quote) == Err::<
            Figure,
            TickerFault,
        >(TickerFault::ZeroBase),
{
}

/// With volumes in both currencies, the day of an exchange has the quotient of
/// the quote volume by the base volume as its price, and the quote volume.
pub proof fn days_weigh_quote_by_base(base: Cell, quote: Cell, b: Num, q: Num)
    requires
        base.number == Some(b),
        quote.number == Some(q),
    ensures
        crate::number::zero().below(b) ==> day_from_volumes(base, quote) == Ok::<
            DayFigures,
            TickerFault,
        >(DayFigures { vwap: Figure::Quotient(q, b), quote_volume: Figure::Stated(q) }),
        !crate::number::zero().below(b) && !b.is_nan() ==> day_from_volumes(base, quote) == Err::<
            DayFigures,
            TickerFault,
        >(TickerFault::ZeroBase),
{
}

/// A day is refused for a base volume that is no number, and then for such a
/// quote volume.
pub proof fn days_need_both_volumes(base: Cell, quote: Cell)
    ensures
        base.number is None ==> day_from_volumes(base, quote) == Err::<DayFigures, TickerFault>(
            TickerFault::BadNumber(base.text@),
        ),
        base.number is Some && quote.number is None ==> day_from_volumes(base, quote) == Err::<
            DayFigures,
            TickerFault,
        >(TickerFault::BadNumber(quote.text@)),
{
}

/// What a list of tickers says does not depend on the exchange nor on any ticker
/// but the first: its last price is the price, and its volumes in the base and
/// in the quote currency make up the day.
pub proof fn the_first_ticker_counts(v: Venue, w: Venue, a: Seq<Ticker>, b: Seq<Ticker>)
    requires
        a.len() > 0,
        b.len() > 0,
        a[0] == b[0],
    ensures
        first_price(v, a) == first_price(w, b),
        first_day(v, a) == first_day(w, b),
        a[0].last.number matches Some(n) ==> first_price(v, a) == Ok::<Num, TickerFault>(n),
        a[0].last.number is None ==> first_price(v, a) is Err,
        a[0].base.number is Some && a[0].quote.number is Some && crate::number::zero().below(
            a[0].base.number->Some_0,
        ) ==> first_day(v, a) == Ok::<DayFigures, TickerFault>(
            DayFigures {
                vwap: Figure::Quotient(a[0].quote.number->Some_0, a[0].base.number->Some_0),
                quote_volume: Figure::Stated(a[0].quote.number->Some_0),
            },
        ),
        a[0].base.number is None || a[0].quote.number is None ==> first_day(v, a) is Err,
{
}

/// A list without a ticker is refused, whatever is asked for.
pub proof fn empty_lists_are_refused(v: Venue)
    ensures
        first_price(v, Seq::empty()) is Err,
        first_day(v, Seq::empty()) is Err,
        first_price(v, Seq::empty())->Err_0 == first_day(v, Seq::empty())->Err_0,
{
}

/// Binance states both figures of its day, and they are taken as they are.
pub proof fn stated_days_are_taken(vwap: Cell, quote: Cell)
    ensures
        vwap.number is Some && quote.number is Some <==> binance_day(vwap, quote) is Ok,
        binance_day(vwap, quote) matches Ok(day) ==> {
            &&& day.vwap == Figure::Stated(vwap.number->Some_0)
            &&& day.quote_volume == Figure::Stated(quote.number->Some_0)
        },
        vwap.number is None ==> binance_day(vwap, quote) == Err::<DayFigures, TickerFault>(
            TickerFault::BadNumber(vwap.text@),
        ),
{
}

/// A price and a volume in the base currency give the price, and their product
/// as the volume in the quote currency.
pub proof fn prices_times_base_make_the_quote_volume(price: Cell, base: Cell)
    ensures
        price.number is Some && base.number is Some <==> day_from_price(price, base) is Ok,
        day_from_price(price, base) matches Ok(day) ==> {
            &&& day.vwap == Figure::Stated(price.number->Some_0)
            &&& day.quote_volume == Figure::Product(price.number->Some_0, base.number->Some_0)
        },
        price.number is None ==> day_from_price(price, base) == Err::<DayFigures, TickerFault>(
            TickerFault::BadNumber(price.text@),
        ),
{
}

/// Of what Kraken says of its pair, the price of the last trade is the price, and
/// the figures of the last day, which come second, make up the day.
pub proof fn kraken_speaks_of_the_last_day(pair: KrakenPair)
    ensures
        pair.close@.len() > 0 && pair.close@[0].number is Some <==> kraken_price(Some(pair)) is Ok,
        kraken_price(Some(pair)) matches Ok(n) ==> pair.close@[0].number == Some(n),
        pair.vwap@.len() >= 2 && pair.volume@.len() >= 2 && pair.vwap@[1].number is Some
            && pair.volume@[1].number is Some <==> kraken_day(Some(pair)) is Ok,
        kraken_day(Some(pair)) matches Ok(day) ==> {
            &&& day.vwap == Figure::Stated(pair.vwap@[1].number->Some_0)
            &&& day.quote_volume == Figure::Product(
                pair.vwap@[1].number->Some_0,
                pair.volume@[1].number->Some_0,
            )
        },
        kraken_price(None) is Err,
        kraken_day(None) is Err,
{
}

} // verus!
