//! Aggregation of per-symbol market records.
//!
//! For each requested symbol the caller fetches a quote window, the
//! instrument metadata and the symbol's news, and hands them in as plain
//! values; the aggregator joins them into one [`MarketOverviewItem`] per
//! symbol, in the callers' input order.  Prices are integer cents; the
//! percent change is carried in basis points (hundredths of a percent).

use crate::decimal::{format_price_cents, spec_price_display};
use crate::news::NewsItem;
use vstd::prelude::*;

verus! {

/// Upper bound, in cents, on the prices the aggregator accepts; keeps the
/// basis-point computation inside machine integers.
pub const MAX_PRICE_CENTS: u64 = 100_000_000_000_000;

/// One point of the short historical series: closing price in cents and the
/// point's unix timestamp.
#[derive(Debug, Clone, Copy, PartialEq, Eq)]
pub struct Quote {
    pub close: u64,
    pub timestamp: i64,
}

/// The most recent quote of a symbol, prices in cents.
#[derive(Debug, Clone, Copy, PartialEq, Eq)]
pub struct QuoteBar {
    pub open: u64,
    pub close: u64,
    pub high: u64,
    pub low: u64,
    pub volume: u64,
}

/// What one quote fetch yields: the latest quote and a short chronological
/// series.
#[derive(Debug, Clone, PartialEq, Eq)]
pub struct QuoteSeries {
    pub last: QuoteBar,
    pub series: Vec<Quote>,
}

/// Instrument metadata as the data source reports it.
#[derive(Debug, Clone, PartialEq, Eq)]
pub struct Metadata {
    pub symbol: String,
    pub long_name: Option<String>,
    pub short_name: Option<String>,
    pub exchange_name: String,
    pub instrument_type: String,
}

/// Everything fetched for one symbol, ready to be joined.
#[derive(Debug, Clone, PartialEq, Eq)]
pub struct SymbolData {
    pub ticker: String,
    pub quotes: QuoteSeries,
    pub metadata: Metadata,
    pub news: Vec<NewsItem>,
}

/// One composed per-symbol record: the join of quote, metadata and news.
/// `change` is the percent change in basis points; `current_price` is the
/// display form of the latest close.
#[derive(Debug, Clone, PartialEq, Eq)]
pub struct MarketOverviewItem {
    pub name: String,
    pub short: String,
    pub sector: String,
    pub current_price: String,
    pub change: i64,
    pub high: u64,
    pub low: u64,
    pub symbol: String,
    pub volume: u64,
    pub news_article: Option<NewsItem>,
    pub quotes: Vec<Quote>,
}

/// The percent change from `open` to `close` in basis points, truncated
/// toward zero: `(close - open) / open * 100`, scaled by 100.
pub open spec fn spec_percent_change_bp(open: u64, close: u64) -> int
    recommends
        1 <= open,
{
    if close >= open {
        (close - open) * 10000 / (open as int)
    } else {
        -((open - close) * 10000 / (open as int))
    }
}

/// Computes the percent change from `open` to `close` in basis points,
/// both prices taken from the same fetched quote.
pub fn percent_change_bp(open: u64, close: u64) -> (r: i64)
    requires
        1 <= open <= MAX_PRICE_CENTS,
        close <= MAX_PRICE_CENTS,
    ensures
        r == spec_percent_change_bp(open, close),
{
    if close >= open {
        let diff: u64 = close - open;
        proof {
            assert(diff * 10000 <= MAX_PRICE_CENTS * 10000) by (nonlinear_arith)
                requires
                    diff <= MAX_PRICE_CENTS,
            ;
            assert(diff * 10000 / (open as int) <= diff * 10000) by (nonlinear_arith)
                requires
                    open >= 1,
                    diff >= 0,
            ;
        }
        let scaled: u64 = diff * 10000;
        let bp: u64 = scaled / open;
        bp as i64
    } else {
        let diff: u64 = open - close;
        proof {
            assert(diff * 10000 <= MAX_PRICE_CENTS * 10000) by (nonlinear_arith)
                requires
                    diff <= MAX_PRICE_CENTS,
            ;
            assert(diff * 10000 / (open as int) <= diff * 10000) by (nonlinear_arith)
                requires
                    open >= 1,
                    diff >= 0,
            ;
        }
        let scaled: u64 = diff * 10000;
        let bp: u64 = scaled / open;
        -(bp as i64)
    }
}

/// The display name of an instrument: the long name when the source gives
/// one, else the short name, else the exchange name.
pub open spec fn spec_display_name(
    long_name: Option<String>,
    short_name: Option<String>,
    exchange_name: String,
) -> String {
    match long_name {
        Some(n) => n,
        None => match short_name {
            Some(n) => n,
            None => exchange_name,
        },
    }
}

/// Picks the display name along the fallback chain long name, short name,
/// exchange name.
pub fn display_name(
    long_name: Option<String>,
    short_name: Option<String>,
    exchange_name: String,
) -> (r: String)
    ensures
        r == spec_display_name(long_name, short_name, exchange_name),
{
    match long_name {
        Some(n) => n,
        None => match short_name {
            Some(n) => n,
            None => exchange_name,
        },
    }
}

/// The prices of `q` admit the basis-point and display computations.
pub open spec fn quote_in_bounds(q: QuoteBar) -> bool {
    &&& 1 <= q.open <= MAX_PRICE_CENTS
    &&& q.close <= MAX_PRICE_CENTS
}

/// The join of one symbol's fetched data into its record: every field of
/// `r` comes from the stated piece of `d`, the percent change from the one
/// latest quote, and the news article is the first (most recent) fetched
/// item, absent — not an error — when the symbol has no news.
pub open spec fn overview_item_ok(d: SymbolData, r: MarketOverviewItem) -> bool {
    &&& r.symbol == d.metadata.symbol
    &&& r.name == spec_display_name(
        d.metadata.long_name,
        d.metadata.short_name,
        d.metadata.exchange_name,
    )
    &&& r.sector == d.metadata.instrument_type
    &&& r.short == d.ticker
    &&& r.current_price@ == spec_price_display(d.quotes.last.close)
    &&& r.change == spec_percent_change_bp(d.quotes.last.open, d.quotes.last.close)
    &&& r.high == d.quotes.last.high
    &&& r.low == d.quotes.last.low
    &&& r.volume == d.quotes.last.volume
    &&& r.quotes == d.quotes.series
    &&& r.news_article == (if d.news@.len() > 0 {
        Some(d.news@[0])
    } else {
        None::<NewsItem>
    })
}

/// Joins one symbol's fetched data into its record.
pub fn build_overview_item(d: SymbolData) -> (r: MarketOverviewItem)
    requires
        quote_in_bounds(d.quotes.last),
    ensures
        overview_item_ok(d, r),
{
    let SymbolData { ticker, quotes, metadata, news } = d;
    let QuoteSeries { last, series } = quotes;
    let Metadata { symbol, long_name, short_name, exchange_name, instrument_type } = metadata;
    let change = percent_change_bp(last.open, last.close);
    let current_price = format_price_cents(last.close);
    let name = display_name(long_name, short_name, exchange_name);
    let mut news = news;
    let news_article = if news.len() > 0 {
        Some(news.remove(0))
    } else {
        None
    };
    MarketOverviewItem {
        name,
        short: ticker,
        sector: instrument_type,
        current_price,
        change,
        high: last.high,
        low: last.low,
        symbol,
        volume: last.volume,
        news_article,
        quotes: series,
    }
}

/// Composes the market overview: one record per fetched symbol, in exactly
/// the input order, independent of the order in which the caller's fetches
/// completed.  An empty input yields an empty overview, not an error.
pub fn get_market_overview(data: Vec<SymbolData>) -> (r: Vec<MarketOverviewItem>)
    requires
        forall|i: int| 0 <= i < data@.len() ==> quote_in_bounds(data@[i].quotes.last),
    ensures
        r@.len() == data@.len(),
        forall|i: int| 0 <= i < data@.len() ==> overview_item_ok(data@[i], r@[i]),
{
    let ghost all = data@;
    let mut rest = data;
    let mut out: Vec<MarketOverviewItem> = Vec::new();
    while rest.len() > 0
        invariant
            out@.len() + rest@.len() == all.len(),
            rest@ == all.subrange(out@.len() as int, all.len() as int),
            forall|i: int| 0 <= i < all.len() ==> quote_in_bounds(all[i].quotes.last),
            forall|j: int| 0 <= j < out@.len() ==> overview_item_ok(all[j], out@[j]),
        decreases rest@.len(),
    {
        let ghost k = out@.len() as int;
        let d = rest.remove(0);
        proof {
            assert(d == all[k]);
            assert(rest@ =~= all.subrange(k + 1, all.len() as int));
        }
        let item = build_overview_item(d);
        out.push(item);
    }
    out
}

} // verus!
