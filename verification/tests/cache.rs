use api::cache::{CacheKey, TtlCache};
use api::errors::BackendError;
use api::flight::{FetchDecision, SingleFlightCache};

const WINDOW: u64 = 600;

#[test]
fn ttl_serves_cached_value_without_refetch() {
    let mut flight: SingleFlightCache<u64> = SingleFlightCache::new();
    let key = CacheKey::Global;
    let mut fetches = 0u32;

    // First request misses and is told to fetch.
    assert_eq!(flight.on_request(&key, 0, WINDOW), FetchDecision::BeginFetch);
    fetches += 1;
    assert!(flight.on_fetch_done::<BackendError>(key.duplicate(), Ok(41), 0).is_ok());

    // N rapid repeated gets inside the window all serve the cache.
    for t in 1..100u64 {
        assert_eq!(flight.on_request(&key, t, WINDOW), FetchDecision::ServeCached);
        assert_eq!(flight.cache.lookup(&key, t, WINDOW), Some(&41));
    }
    assert_eq!(fetches, 1);
}

#[test]
fn expiry_triggers_exactly_one_new_fetch() {
    let mut flight: SingleFlightCache<u64> = SingleFlightCache::new();
    let key = CacheKey::Symbol("MDB".to_owned());

    assert_eq!(flight.on_request(&key, 0, WINDOW), FetchDecision::BeginFetch);
    assert!(flight.on_fetch_done::<BackendError>(key.duplicate(), Ok(1), 0).is_ok());
    assert_eq!(flight.cache.lookup(&key, WINDOW - 1, WINDOW), Some(&1));

    // The window has elapsed: the next get misses and owes one new fetch.
    assert_eq!(flight.cache.lookup(&key, WINDOW, WINDOW), None);
    assert_eq!(flight.on_request(&key, WINDOW, WINDOW), FetchDecision::BeginFetch);
    // Nobody else fetches meanwhile.
    assert_eq!(flight.on_request(&key, WINDOW, WINDOW), FetchDecision::AwaitInFlight);
    assert!(flight.on_fetch_done::<BackendError>(key.duplicate(), Ok(2), WINDOW).is_ok());

    // `fetched_at` was advanced: fresh again for a full window from now.
    assert_eq!(flight.cache.lookup(&key, 2 * WINDOW - 1, WINDOW), Some(&2));
}

#[test]
fn stale_on_error_keeps_old_value_intact() {
    let mut flight: SingleFlightCache<String> = SingleFlightCache::new();
    let key = CacheKey::Symbol("GTLB".to_owned());

    assert_eq!(flight.on_request(&key, 0, WINDOW), FetchDecision::BeginFetch);
    assert!(flight
        .on_fetch_done::<BackendError>(key.duplicate(), Ok("first".to_owned()), 0)
        .is_ok());

    // Entry expires; the refetch fails: the error surfaces...
    assert_eq!(flight.on_request(&key, WINDOW + 1, WINDOW), FetchDecision::BeginFetch);
    let failed = flight.on_fetch_done(
        key.duplicate(),
        Err(BackendError::Internal("provider down".to_owned())),
        WINDOW + 1,
    );
    assert_eq!(failed, Err(BackendError::Internal("provider down".to_owned())));

    // ...but the stored entry is untouched: same value, same fetch tick.
    assert_eq!(flight.cache.lookup(&key, WINDOW - 1, WINDOW), Some(&"first".to_owned()));

    // A later successful fetch still succeeds and replaces the value.
    assert_eq!(flight.on_request(&key, WINDOW + 2, WINDOW), FetchDecision::BeginFetch);
    assert!(flight
        .on_fetch_done::<BackendError>(key.duplicate(), Ok("second".to_owned()), WINDOW + 2)
        .is_ok());
    assert_eq!(flight.cache.lookup(&key, WINDOW + 3, WINDOW), Some(&"second".to_owned()));
}

#[test]
fn key_isolation_expiry_and_refresh() {
    let mut cache: TtlCache<u64> = TtlCache::new();
    let a = CacheKey::Symbol("AAA".to_owned());
    let b = CacheKey::Symbol("BBB".to_owned());

    cache.store(a.duplicate(), 10, 0);
    cache.store(b.duplicate(), 20, 500);

    // A expires at tick 600; B (stored later) is still fresh.
    assert_eq!(cache.lookup(&a, 600, WINDOW), None);
    assert_eq!(cache.lookup(&b, 600, WINDOW), Some(&20));

    // Refreshing A neither changes B's value nor its freshness.
    cache.store(a.duplicate(), 11, 600);
    assert_eq!(cache.lookup(&a, 601, WINDOW), Some(&11));
    assert_eq!(cache.lookup(&b, 601, WINDOW), Some(&20));
    assert_eq!(cache.lookup(&b, 500 + WINDOW, WINDOW), None);

    // Invalidating A leaves B servable.
    cache.invalidate(&a);
    assert_eq!(cache.lookup(&a, 601, WINDOW), None);
    assert_eq!(cache.lookup(&b, 601, WINDOW), Some(&20));
}

#[test]
fn global_and_symbol_keys_are_distinct_slots() {
    let mut cache: TtlCache<u64> = TtlCache::new();
    cache.store(CacheKey::Global, 1, 0);
    cache.store(CacheKey::Symbol(String::new()), 2, 0);
    assert_eq!(cache.lookup(&CacheKey::Global, 1, WINDOW), Some(&1));
    assert_eq!(cache.lookup(&CacheKey::Symbol(String::new()), 1, WINDOW), Some(&2));
}

#[test]
fn concurrent_misses_share_a_single_fetch() {
    let mut flight: SingleFlightCache<u64> = SingleFlightCache::new();
    let key = CacheKey::Symbol("CFLT".to_owned());

    // Populate, then let the entry expire.
    assert_eq!(flight.on_request(&key, 0, WINDOW), FetchDecision::BeginFetch);
    assert!(flight.on_fetch_done::<BackendError>(key.duplicate(), Ok(7), 0).is_ok());

    // 50 requests arrive against the expired key while the one fetch runs.
    let mut invocations = 0u32;
    for _ in 0..50 {
        match flight.on_request(&key, WINDOW, WINDOW) {
            FetchDecision::BeginFetch => invocations += 1,
            FetchDecision::AwaitInFlight => {}
            FetchDecision::ServeCached => panic!("expired key served from cache"),
        }
    }
    assert_eq!(invocations, 1);

    // The shared fetch completes; all 50 callers read the same value.
    assert!(flight.on_fetch_done::<BackendError>(key.duplicate(), Ok(99), WINDOW).is_ok());
    for _ in 0..50 {
        assert_eq!(flight.cache.lookup(&key, WINDOW + 1, WINDOW), Some(&99));
    }
}

#[test]
fn fetch_failure_on_empty_key_stores_nothing() {
    let mut flight: SingleFlightCache<u64> = SingleFlightCache::new();
    let key = CacheKey::Global;
    assert_eq!(flight.on_request(&key, 5, WINDOW), FetchDecision::BeginFetch);
    let r = flight.on_fetch_done(
        key.duplicate(),
        Err(BackendError::Internal("no route".to_owned())),
        5,
    );
    assert_eq!(r, Err(BackendError::Internal("no route".to_owned())));
    assert_eq!(flight.cache.lookup(&key, 6, WINDOW), None);
    // The key is no longer marked in flight: the next request may fetch.
    assert_eq!(flight.on_request(&key, 6, WINDOW), FetchDecision::BeginFetch);
}
