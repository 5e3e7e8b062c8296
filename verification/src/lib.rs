//! A time-windowed aggregation cache for market data.
//!
//! The heart of the crate is a keyed TTL cache ([`cache::TtlCache`]) that
//! memoizes the result of an expensive fetch per key and expires it after a
//! caller-chosen window, together with a single-flight coordinator
//! ([`flight::SingleFlightCache`]) that decides, for each incoming request,
//! whether to serve the cached value, wait for a fetch already under way, or
//! start a new one.  On top of that sit the aggregation of per-symbol market
//! records ([`market`]), the news lookup ([`news`]), and the credential
//! checks ([`credentials`]).
//!
//! The crate never performs I/O itself: callers fetch quotes and news, read
//! the clock, and hand the results in as plain values; every decision and
//! every join over those values is verified here.

pub mod cache;
pub mod credentials;
pub mod decimal;
pub mod errors;
pub mod flight;
pub mod market;
pub mod news;
