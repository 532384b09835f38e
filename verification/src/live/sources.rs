//! What is asked of which exchange.

use vstd::prelude::*;

use crate::venue::Venue;

verus! {

/// The pair that an exchange is asked for.
pub open spec fn pair_words(v: Venue) -> Seq<char> {
    match v {
        Venue::Coinbase => "DOT/USD"@,
        Venue::Kraken => "DOT/USD"@,
        Venue::CryptoCom => "DOT/USD"@,
        _ => "DOT/USDT"@,
    }
}

/// Names the pair that an exchange is asked for.
pub fn pair(v: Venue) -> (r: &'static str)
    ensures
        r@ == pair_words(v),
{
    match v {
        Venue::Coinbase => "DOT/USD",
        Venue::Kraken => "DOT/USD",
        Venue::CryptoCom => "DOT/USD",
        _ => "DOT/USDT",
    }
}

/// How far an exchange can be relied on.
pub open spec fn reliability_words(v: Venue) -> Seq<char> {
    match v {
        Venue::Binance => "Very High"@,
        Venue::Okx => "High"@,
        Venue::Coinbase => "Very High"@,
        Venue::Kraken => "Very High"@,
        Venue::Bybit => "High"@,
        Venue::KuCoin => "Medium-High"@,
        Venue::CryptoCom => "High"@,
        Venue::Gate => "Medium-High"@,
    }
}

/// Says how far an exchange can be relied on.
pub fn reliability(v: Venue) -> (r: &'static str)
    ensures
        r@ == reliability_words(v),
{
    match v {
        Venue::Binance => "Very High",
        Venue::Okx => "High",
        Venue::Coinbase => "Very High",
        Venue::Kraken => "Very High",
        Venue::Bybit => "High",
        Venue::KuCoin => "Medium-High",
        Venue::CryptoCom => "High",
        Venue::Gate => "Medium-High",
    }
}

/// Where an exchange is asked for its price.
pub open spec fn price_url_words(v: Venue) -> Seq<char> {
    match v {
        Venue::Binance => "https://data-api.binance.vision/api/v3/ticker/price?symbol=DOTUSDT"@,
        Venue::Okx => "https://www.okx.com/api/v5/market/ticker?instId=DOT-USDT"@,
        Venue::Coinbase => "https://api.coinbase.com/v2/prices/DOT-USD/spot"@,
        Venue::Kraken => "https://api.kraken.com/0/public/Ticker?pair=DOTUSD"@,
        Venue::Bybit => "https://api.bybit.com/v5/market/tickers?category=spot&symbol=DOTUSDT"@,
        Venue::KuCoin => "https://api.kucoin.com/api/v1/market/orderbook/level1?symbol=DOT-USDT"@,
        Venue::CryptoCom => "https://api.crypto.com/exchange/v1/public/get-tickers?instrument_name=DOT_USD"@,
        Venue::Gate => "https://api.gateio.ws/api/v4/spot/tickers?currency_pair=DOT_USDT"@,
    }
}

/// Says where an exchange is asked for its price.
pub fn price_url(v: Venue) -> (r: &'static str)
    ensures
        r@ == price_url_words(v),
{
    match v {
        Venue::Binance => "https://data-api.binance.vision/api/v3/ticker/price?symbol=DOTUSDT",
        Venue::Okx => "https://www.okx.com/api/v5/market/ticker?instId=DOT-USDT",
        Venue::Coinbase => "https://api.coinbase.com/v2/prices/DOT-USD/spot",
        Venue::Kraken => "https://api.kraken.com/0/public/Ticker?pair=DOTUSD",
        Venue::Bybit => "https://api.bybit.com/v5/market/tickers?category=spot&symbol=DOTUSDT",
        Venue::KuCoin => "https://api.kucoin.com/api/v1/market/orderbook/level1?symbol=DOT-USDT",
        Venue::CryptoCom => "https://api.crypto.com/exchange/v1/public/get-tickers?instrument_name=DOT_USD",
        Venue::Gate => "https://api.gateio.ws/api/v4/spot/tickers?currency_pair=DOT_USDT",
    }
}

/// Where an exchange is asked for what was traded in a day.
pub open spec fn vwap_url_words(v: Venue) -> Seq<char> {
    match v {
        Venue::Binance => "https://data-api.binance.vision/api/v3/ticker/24hr?symbol=DOTUSDT"@,
        Venue::Coinbase => "https://api.exchange.coinbase.com/products/DOT-USD/stats"@,
        Venue::KuCoin => "https://api.kucoin.com/api/v1/market/stats?symbol=DOT-USDT"@,
        _ => price_url_words(v),
    }
}

/// Says where an exchange is asked for what was traded in a day.
pub fn vwap_url(v: Venue) -> (r: &'static str)
    ensures
        r@ == vwap_url_words(v),
{
    match v {
        Venue::Binance => "https://data-api.binance.vision/api/v3/ticker/24hr?symbol=DOTUSDT",
        Venue::Coinbase => "https://api.exchange.coinbase.com/products/DOT-USD/stats",
        Venue::KuCoin => "https://api.kucoin.com/api/v1/market/stats?symbol=DOT-USDT",
        _ => price_url(v),
    }
}


/// Every exchange is asked at its own address for the pair that the table shows,
/// written as the exchange writes it.
#[verifier::rlimit(60)]
pub proof fn prices_are_asked_of_the_pair(v: Venue)
    ensures
        ({
            let (site, mark, tail) = match v {
            Venue::Binance => ("https://data-api.binance.vision/api/v3/ticker/price?symbol="@, ""@, ""@),
            Venue::Okx => ("https://www.okx.com/api/v5/market/ticker?instId="@, "-"@, ""@),
            Venue::Coinbase => ("https://api.coinbase.com/v2/prices/"@, "-"@, "/spot"@),
            Venue::Kraken => ("https://api.kraken.com/0/public/Ticker?pair="@, ""@, ""@),
            Venue::Bybit => ("https://api.bybit.com/v5/market/tickers?category=spot&symbol="@, ""@, ""@),
            Venue::KuCoin => ("https://api.kucoin.com/api/v1/market/orderbook/level1?symbol="@, "-"@, ""@),
            Venue::CryptoCom => ("https://api.crypto.com/exchange/v1/public/get-tickers?instrument_name="@, "_"@, ""@),
            Venue::Gate => ("https://api.gateio.ws/api/v4/spot/tickers?currency_pair="@, "_"@, ""@),
            };
            price_url_words(v) == site + "DOT"@ + mark + pair_words(v).skip(4) + tail
        }),
{
    match v {
        Venue::Binance => {
            reveal_strlit("https://data-api.binance.vision/api/v3/ticker/price?symbol=DOTUSDT");
            reveal_strlit("https://data-api.binance.vision/api/v3/ticker/price?symbol=");
            reveal_strlit("DOT");
            reveal_strlit("USDT");
            reveal_strlit("DOT/USDT");
            reveal_strlit("");
            assert("https://data-api.binance.vision/api/v3/ticker/price?symbol=DOTUSDT"@ =~= "https://data-api.binance.vision/api/v3/ticker/price?symbol="@ + "DOT"@ + ""@ + "USDT"@ + ""@);
            assert("DOT/USDT"@.skip(4) =~= "USDT"@);
        },
        Venue::Okx => {
            reveal_strlit("https://www.okx.com/api/v5/market/ticker?instId=DOT-USDT");
            reveal_strlit("https://www.okx.com/api/v5/market/ticker?instId=");
            reveal_strlit("DOT");
            reveal_strlit("USDT");
            reveal_strlit("DOT/USDT");
            reveal_strlit("-");
            reveal_strlit("");
            assert("https://www.okx.com/api/v5/market/ticker?instId=DOT-USDT"@ =~= "https://www.okx.com/api/v5/market/ticker?instId="@ + "DOT"@ + "-"@ + "USDT"@ + ""@);
            assert("DOT/USDT"@.skip(4) =~= "USDT"@);
        },
        Venue::Coinbase => {
            reveal_strlit("https://api.coinbase.com/v2/prices/DOT-USD/spot");
            reveal_strlit("https://api.coinbase.com/v2/prices/");
            reveal_strlit("DOT");
            reveal_strlit("USD");
            reveal_strlit("DOT/USD");
            reveal_strlit("-");
            reveal_strlit("/spot");
            assert("https://api.coinbase.com/v2/prices/DOT-USD/spot"@ =~= "https://api.coinbase.com/v2/prices/"@ + "DOT"@ + "-"@ + "USD"@ + "/spot"@);
            assert("DOT/USD"@.skip(4) =~= "USD"@);
        },
        Venue::Kraken => {
            reveal_strlit("https://api.kraken.com/0/public/Ticker?pair=DOTUSD");
            reveal_strlit("https://api.kraken.com/0/public/Ticker?pair=");
            reveal_strlit("DOT");
            reveal_strlit("USD");
            reveal_strlit("DOT/USD");
            reveal_strlit("");
            assert("https://api.kraken.com/0/public/Ticker?pair=DOTUSD"@ =~= "https://api.kraken.com/0/public/Ticker?pair="@ + "DOT"@ + ""@ + "USD"@ + ""@);
            assert("DOT/USD"@.skip(4) =~= "USD"@);
        },
        Venue::Bybit => {
            reveal_strlit("https://api.bybit.com/v5/market/tickers?category=spot&symbol=DOTUSDT");
            reveal_strlit("https://api.bybit.com/v5/market/tickers?category=spot&symbol=");
            reveal_strlit("DOT");
            reveal_strlit("USDT");
            reveal_strlit("DOT/USDT");
            reveal_strlit("");
            assert("https://api.bybit.com/v5/market/tickers?category=spot&symbol=DOTUSDT"@ =~= "https://api.bybit.com/v5/market/tickers?category=spot&symbol="@ + "DOT"@ + ""@ + "USDT"@ + ""@);
            assert("DOT/USDT"@.skip(4) =~= "USDT"@);
        },
        Venue::KuCoin => {
            reveal_strlit("https://api.kucoin.com/api/v1/market/orderbook/level1?symbol=DOT-USDT");
            reveal_strlit("https://api.kucoin.com/api/v1/market/orderbook/level1?symbol=");
            reveal_strlit("DOT");
            reveal_strlit("USDT");
            reveal_strlit("DOT/USDT");
            reveal_strlit("-");
            reveal_strlit("");
            assert("https://api.kucoin.com/api/v1/market/orderbook/level1?symbol=DOT-USDT"@ =~= "https://api.kucoin.com/api/v1/market/orderbook/level1?symbol="@ + "DOT"@ + "-"@ + "USDT"@ + ""@);
            assert("DOT/USDT"@.skip(4) =~= "USDT"@);
        },
        Venue::CryptoCom => {
            reveal_strlit("https://api.crypto.com/exchange/v1/public/get-tickers?instrument_name=DOT_USD");
            reveal_strlit("https://api.crypto.com/exchange/v1/public/get-tickers?instrument_name=");
            reveal_strlit("DOT");
            reveal_strlit("USD");
            reveal_strlit("DOT/USD");
            reveal_strlit("_");
            reveal_strlit("");
            assert("https://api.crypto.com/exchange/v1/public/get-tickers?instrument_name=DOT_USD"@ =~= "https://api.crypto.com/exchange/v1/public/get-tickers?instrument_name="@ + "DOT"@ + "_"@ + "USD"@ + ""@);
            assert("DOT/USD"@.skip(4) =~= "USD"@);
        },
        Venue::Gate => {
            reveal_strlit("https://api.gateio.ws/api/v4/spot/tickers?currency_pair=DOT_USDT");
            reveal_strlit("https://api.gateio.ws/api/v4/spot/tickers?currency_pair=");
            reveal_strlit("DOT");
            reveal_strlit("USDT");
            reveal_strlit("DOT/USDT");
            reveal_strlit("_");
            reveal_strlit("");
            assert("https://api.gateio.ws/api/v4/spot/tickers?currency_pair=DOT_USDT"@ =~= "https://api.gateio.ws/api/v4/spot/tickers?currency_pair="@ + "DOT"@ + "_"@ + "USDT"@ + ""@);
            assert("DOT/USDT"@.skip(4) =~= "USDT"@);
        },
    }
}

/// For what was traded in a day, three exchanges are asked at another address
/// for the same pair, and the others at that of the price.
#[verifier::rlimit(60)]
pub proof fn days_are_asked_of_the_pair(v: Venue)
    ensures
        match v {
            Venue::Binance | Venue::Coinbase | Venue::KuCoin => {
                let (site, mark, tail) = match v {
                    Venue::Binance => ("https://data-api.binance.vision/api/v3/ticker/24hr?symbol="@, ""@, ""@),
                    Venue::Coinbase => ("https://api.exchange.coinbase.com/products/"@, "-"@, "/stats"@),
                    _ => ("https://api.kucoin.com/api/v1/market/stats?symbol="@, "-"@, ""@),
                };
                vwap_url_words(v) == site + "DOT"@ + mark + pair_words(v).skip(4) + tail
            },
            _ => vwap_url_words(v) == price_url_words(v),
        },
{
    match v {
        Venue::Binance => {
            reveal_strlit("https://data-api.binance.vision/api/v3/ticker/24hr?symbol=DOTUSDT");
            reveal_strlit("https://data-api.binance.vision/api/v3/ticker/24hr?symbol=");
            reveal_strlit("DOT");
            reveal_strlit("USDT");
            reveal_strlit("DOT/USDT");
            reveal_strlit("");
            assert("https://data-api.binance.vision/api/v3/ticker/24hr?symbol=DOTUSDT"@ =~= "https://data-api.binance.vision/api/v3/ticker/24hr?symbol="@ + "DOT"@ + ""@ + "USDT"@ + ""@);
            assert("DOT/USDT"@.skip(4) =~= "USDT"@);
        },
        Venue::Coinbase => {
            reveal_strlit("https://api.exchange.coinbase.com/products/DOT-USD/stats");
            reveal_strlit("https://api.exchange.coinbase.com/products/");
            reveal_strlit("DOT");
            reveal_strlit("USD");
            reveal_strlit("DOT/USD");
            reveal_strlit("-");
            reveal_strlit("/stats");
            assert("https://api.exchange.coinbase.com/products/DOT-USD/stats"@ =~= "https://api.exchange.coinbase.com/products/"@ + "DOT"@ + "-"@ + "USD"@ + "/stats"@);
            assert("DOT/USD"@.skip(4) =~= "USD"@);
        },
        Venue::KuCoin => {
            reveal_strlit("https://api.kucoin.com/api/v1/market/stats?symbol=DOT-USDT");
            reveal_strlit("https://api.kucoin.com/api/v1/market/stats?symbol=");
            reveal_strlit("DOT");
            reveal_strlit("USDT");
            reveal_strlit("DOT/USDT");
            reveal_strlit("-");
            reveal_strlit("");
            assert("https://api.kucoin.com/api/v1/market/stats?symbol=DOT-USDT"@ =~= "https://api.kucoin.com/api/v1/market/stats?symbol="@ + "DOT"@ + "-"@ + "USDT"@ + ""@);
            assert("DOT/USDT"@.skip(4) =~= "USDT"@);
        },
        _ => {},
    }
}

} // verus!
