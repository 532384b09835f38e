//! The exchanges.

use vstd::prelude::*;

verus! {

/// An exchange.
#[derive(Clone, Copy, Debug, PartialEq, Eq, Structural)]
pub enum Venue {
    Binance,
    Okx,
    Coinbase,
    Kraken,
    Bybit,
    KuCoin,
    CryptoCom,
    Gate,
}

/// The name of an exchange, as tables and logs show it.
pub open spec fn venue_name(v: Venue) -> Seq<char> {
    match v {
        Venue::Binance => "Binance"@,
        Venue::Okx => "OKX"@,
        Venue::Coinbase => "Coinbase"@,
        Venue::Kraken => "Kraken"@,
        Venue::Bybit => "Bybit"@,
        Venue::KuCoin => "KuCoin"@,
        Venue::CryptoCom => "Crypto.com"@,
        Venue::Gate => "Gate.io"@,
    }
}

impl Venue {
    /// The name of the exchange.
    pub fn name(self) -> (r: &'static str)
        ensures
            r@ == venue_name(self),
    {
        match self {
            Venue::Binance => "Binance",
            Venue::Okx => "OKX",
            Venue::Coinbase => "Coinbase",
            Venue::Kraken => "Kraken",
            Venue::Bybit => "Bybit",
            Venue::KuCoin => "KuCoin",
            Venue::CryptoCom => "Crypto.com",
            Venue::Gate => "Gate.io",
        }
    }
}

/// The exchanges that are polled live, in the order of the table.
pub open spec fn live_venues() -> Seq<Venue> {
    seq![
        Venue::Binance,
        Venue::Okx,
        Venue::Coinbase,
        Venue::Kraken,
        Venue::Bybit,
        Venue::KuCoin,
        Venue::CryptoCom,
        Venue::Gate,
    ]
}

/// The exchanges with candles of a year, in the order of the logs.
pub open spec fn history_venues() -> Seq<Venue> {
    seq![
        Venue::Binance,
        Venue::Okx,
        Venue::Coinbase,
        Venue::Kraken,
        Venue::Bybit,
        Venue::KuCoin,
        Venue::CryptoCom,
    ]
}

/// The exchanges with candles of one minute, in the order of the logs.
pub open spec fn minute_venues() -> Seq<Venue> {
    seq![
        Venue::Binance,
        Venue::Okx,
        Venue::Coinbase,
        Venue::Bybit,
        Venue::KuCoin,
        Venue::CryptoCom,
    ]
}

/// Lists the exchanges that are polled live.
pub fn live() -> (r: Vec<Venue>)
    ensures
        r@ == live_venues(),
{
    vec![
        Venue::Binance,
        Venue::Okx,
        Venue::Coinbase,
        Venue::Kraken,
        Venue::Bybit,
        Venue::KuCoin,
        Venue::CryptoCom,
        Venue::Gate,
    ]
}

/// Lists the exchanges with candles of a year.
pub fn with_history() -> (r: Vec<Venue>)
    ensures
        r@ == history_venues(),
{
    vec![
        Venue::Binance,
        Venue::Okx,
        Venue::Coinbase,
        Venue::Kraken,
        Venue::Bybit,
        Venue::KuCoin,
        Venue::CryptoCom,
    ]
}

/// Lists the exchanges with candles of one minute.
pub fn with_minutes() -> (r: Vec<Venue>)
    ensures
        r@ == minute_venues(),
{
    vec![
        Venue::Binance,
        Venue::Okx,
        Venue::Coinbase,
        Venue::Bybit,
        Venue::KuCoin,
        Venue::CryptoCom,
    ]
}

/// No two exchanges share a name, and none is called `ts`, which is the key of
/// the time in a log.
pub proof fn names_are_distinct(a: Venue, b: Venue)
    ensures
        venue_name(a) == venue_name(b) ==> a == b,
        venue_name(a) != "ts"@,
{
    reveal_strlit("Binance");
    reveal_strlit("OKX");
    reveal_strlit("Coinbase");
    reveal_strlit("Kraken");
    reveal_strlit("Bybit");
    reveal_strlit("KuCoin");
    reveal_strlit("Crypto.com");
    reveal_strlit("Gate.io");
    reveal_strlit("ts");
    assert(venue_name(a).len() > 2);
    if a != b && venue_name(a).len() == venue_name(b).len() {
        assert(venue_name(a)[0] != venue_name(b)[0] || venue_name(a)[1] != venue_name(b)[1]);
    }
}


/// Every list of exchanges has each of them once, in the order of the table: those
/// with candles of a year are all but Gate.io, and those with candles of one
/// minute are these but Kraken.
pub proof fn lists_keep_the_order_of_the_table(v: Venue)
    ensures
        live_venues().contains(v),
        live_venues().no_duplicates(),
        history_venues() == live_venues().filter(|w: Venue| w != Venue::Gate),
        minute_venues() == history_venues().filter(|w: Venue| w != Venue::Kraken),
{
    let live = live_venues();
    assert(live[0] == Venue::Binance && live[1] == Venue::Okx && live[2] == Venue::Coinbase
        && live[3] == Venue::Kraken && live[4] == Venue::Bybit && live[5] == Venue::KuCoin
        && live[6] == Venue::CryptoCom && live[7] == Venue::Gate);
    let some = |w: Venue| w != Venue::Gate;
    let few = |w: Venue| w != Venue::Kraken;
    lemma_filter_push(Seq::empty(), Venue::Binance, some);
    reveal(Seq::filter);
    assert(Seq::<Venue>::empty().filter(some) =~= Seq::empty());
    assert(Seq::<Venue>::empty().filter(few) =~= Seq::empty());
    let a1 = Seq::<Venue>::empty().push(Venue::Binance);
    let a2 = a1.push(Venue::Okx);
    let a3 = a2.push(Venue::Coinbase);
    let a4 = a3.push(Venue::Kraken);
    let a5 = a4.push(Venue::Bybit);
    let a6 = a5.push(Venue::KuCoin);
    let a7 = a6.push(Venue::CryptoCom);
    lemma_filter_push(a1, Venue::Okx, some);
    lemma_filter_push(a2, Venue::Coinbase, some);
    lemma_filter_push(a3, Venue::Kraken, some);
    lemma_filter_push(a4, Venue::Bybit, some);
    lemma_filter_push(a5, Venue::KuCoin, some);
    lemma_filter_push(a6, Venue::CryptoCom, some);
    lemma_filter_push(a7, Venue::Gate, some);
    assert(live =~= a7.push(Venue::Gate));
    assert(history_venues() =~= a7);
    lemma_filter_push(Seq::empty(), Venue::Binance, few);
    lemma_filter_push(a1, Venue::Okx, few);
    lemma_filter_push(a2, Venue::Coinbase, few);
    lemma_filter_push(a3, Venue::Kraken, few);
    lemma_filter_push(a4, Venue::Bybit, few);
    lemma_filter_push(a5, Venue::KuCoin, few);
    lemma_filter_push(a6, Venue::CryptoCom, few);
    assert(minute_venues() =~= a7.filter(few));
}

proof fn lemma_filter_push(list: Seq<Venue>, v: Venue, keep: spec_fn(Venue) -> bool)
    ensures
        list.push(v).filter(keep) == if keep(v) {
            list.filter(keep).push(v)
        } else {
            list.filter(keep)
        },
{
    reveal(Seq::filter);
    assert(list.push(v).drop_last() =~= list);
}

} // verus!
