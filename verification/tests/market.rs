use api::market::{
    build_overview_item, display_name, get_market_overview, percent_change_bp, Metadata,
    MarketOverviewItem, Quote, QuoteBar, QuoteSeries, SymbolData,
};
use api::news::NewsItem;

fn metadata(symbol: &str) -> Metadata {
    Metadata {
        symbol: symbol.to_owned(),
        long_name: Some(format!("{symbol} Inc.")),
        short_name: Some(symbol.to_owned()),
        exchange_name: "NMS".to_owned(),
        instrument_type: "EQUITY".to_owned(),
    }
}

fn symbol_data(ticker: &str, open_cents: u64, close_cents: u64) -> SymbolData {
    SymbolData {
        ticker: ticker.to_owned(),
        quotes: QuoteSeries {
            last: QuoteBar {
                open: open_cents,
                close: close_cents,
                high: close_cents + 100,
                low: open_cents.saturating_sub(100),
                volume: 1_000,
            },
            series: vec![
                Quote { close: open_cents, timestamp: 1_700_000_000 },
                Quote { close: close_cents, timestamp: 1_700_086_400 },
            ],
        },
        metadata: metadata(ticker),
        news: vec![],
    }
}

#[test]
fn percent_change_is_exact_in_basis_points() {
    // open 100, close 110 (dollars): exactly +10.0%, i.e. 1000 basis points.
    assert_eq!(percent_change_bp(10_000, 11_000), 1_000);
    assert_eq!(percent_change_bp(10_000, 10_000), 0);
    // A drop truncates toward zero: (10000-11000)/11000 * 10000 = -909.09...
    assert_eq!(percent_change_bp(11_000, 10_000), -909);
    assert_eq!(percent_change_bp(1, 2), 10_000);
}

#[test]
fn join_of_mdb_quote_is_ten_percent_and_no_news_is_not_an_error() {
    let item = build_overview_item(symbol_data("MDB", 10_000, 11_000));
    assert_eq!(item.change, 1_000);
    assert_eq!(item.current_price, "$110.0");
    assert_eq!(item.symbol, "MDB");
    assert_eq!(item.short, "MDB");
    assert_eq!(item.name, "MDB Inc.");
    assert_eq!(item.sector, "EQUITY");
    assert_eq!(item.high, 11_100);
    assert_eq!(item.low, 9_900);
    assert_eq!(item.volume, 1_000);
    assert_eq!(item.news_article, None);
    assert_eq!(item.quotes.len(), 2);
    assert_eq!(item.quotes[0].close, 10_000);
}

#[test]
fn join_takes_most_recent_news_item() {
    let mut d = symbol_data("MDB", 10_000, 11_000);
    d.news = vec![
        NewsItem {
            id: "n1".to_owned(),
            title: "newest".to_owned(),
            publisher: "p".to_owned(),
            source: "https://example.com/1".to_owned(),
            date: "1700000001".to_owned(),
        },
        NewsItem {
            id: "n2".to_owned(),
            title: "older".to_owned(),
            publisher: "p".to_owned(),
            source: "https://example.com/2".to_owned(),
            date: "1700000000".to_owned(),
        },
    ];
    let item = build_overview_item(d);
    let picked = item.news_article.expect("a news item");
    assert_eq!(picked.id, "n1");
    assert_eq!(picked.title, "newest");
}

#[test]
fn overview_preserves_input_order() {
    let tickers = ["XMR-USD", "MDB", "GTLB", "CFLT"];
    let data: Vec<SymbolData> =
        tickers.iter().map(|t| symbol_data(t, 5_000, 6_000)).collect();
    let records: Vec<MarketOverviewItem> = get_market_overview(data);
    assert_eq!(records.len(), 4);
    for (record, ticker) in records.iter().zip(tickers.iter()) {
        assert_eq!(&record.short, ticker);
        assert_eq!(&record.symbol, ticker);
    }
}

#[test]
fn overview_of_no_symbols_is_empty_not_an_error() {
    let records = get_market_overview(Vec::new());
    assert!(records.is_empty());
}

#[test]
fn display_name_falls_back_long_short_exchange() {
    assert_eq!(
        display_name(Some("Long".to_owned()), Some("Short".to_owned()), "NMS".to_owned()),
        "Long"
    );
    assert_eq!(display_name(None, Some("Short".to_owned()), "NMS".to_owned()), "Short");
    assert_eq!(display_name(None, None, "NMS".to_owned()), "NMS");
}
