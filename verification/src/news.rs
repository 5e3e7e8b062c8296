//! News items and the news lookup's cache-key scoping.
//!
//! A news query either carries no symbol filter — then it means the global
//! feed and is cached under the global key — or names one symbol, and is
//! cached under that symbol's own key, independent of the global feed and of
//! every other symbol.

use crate::cache::CacheKey;
use crate::decimal::{spec_decimal, u64_to_string};
use vstd::prelude::*;

verus! {

/// One news article, immutable once constructed.  `date` is the feed's
/// publish time in seconds, rendered in decimal.
#[derive(Debug, Clone, PartialEq, Eq)]
pub struct NewsItem {
    pub id: String,
    pub title: String,
    pub publisher: String,
    pub source: String,
    pub date: String,
}

/// Builds a news item from the plain fields of a feed entry, rendering the
/// publish time in decimal.
pub fn news_item_from_parts(
    id: String,
    title: String,
    publisher: String,
    link: String,
    publish_time: u64,
) -> (r: NewsItem)
    ensures
        r.id == id,
        r.title == title,
        r.publisher == publisher,
        r.source == link,
        r.date@ == spec_decimal(publish_time as nat),
{
    let date = u64_to_string(publish_time);
    NewsItem { id, title, publisher, source: link, date }
}

/// The cache key a news query uses: the global key when no symbol filter is
/// given, the symbol's own key otherwise.
pub fn news_cache_key(filter: Option<String>) -> (k: CacheKey)
    ensures
        filter is None ==> k@ is None,
        filter matches Some(s) ==> k@ == Some(s@),
{
    match filter {
        None => CacheKey::Global,
        Some(s) => CacheKey::Symbol(s),
    }
}

} // verus!
