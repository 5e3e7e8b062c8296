//! Single-flight coordination on top of the TTL cache.
//!
//! Concurrent callers share the cache; the coordinator decides, per request,
//! whether to serve the cached value, wait on a fetch already under way, or
//! start the one fetch for the key.  The caller runs the blocking fetch
//! itself and reports its outcome through [`SingleFlightCache::on_fetch_done`];
//! only the decisions live here, so they hold whatever the fetch does.

use crate::cache::{CacheEntry, CacheKey, TtlCache};
use vstd::prelude::*;

verus! {

/// What a request against the cache should do next.
#[derive(Debug, PartialEq, Eq)]
pub enum FetchDecision {
    /// A fresh entry exists: serve it, without any fetch.
    ServeCached,
    /// The entry is missing or expired, and another caller's fetch for this
    /// key is already under way: wait for that one instead of duplicating
    /// it.
    AwaitInFlight,
    /// The entry is missing or expired and nobody is fetching this key: the
    /// caller owes the fetch and has been marked as in flight.
    BeginFetch,
}

/// Membership of a key view in a list of keys.
pub open spec fn key_in(s: Seq<CacheKey>, k: Option<Seq<char>>) -> bool {
    exists|i: int| 0 <= i < s.len() && s[i]@ == k
}

/// A TTL cache together with the set of keys whose fetch is under way.
pub struct SingleFlightCache<V> {
    pub cache: TtlCache<V>,
    pub in_flight: Vec<CacheKey>,
}

impl<V> SingleFlightCache<V> {
    /// Whether a fetch for `k` is under way.
    pub open spec fn is_in_flight(&self, k: Option<Seq<char>>) -> bool {
        key_in(self.in_flight@, k)
    }

    pub open spec fn wf(&self) -> bool {
        &&& self.cache.wf()
        &&& forall|p: int, q: int|
            0 <= p < q < self.in_flight@.len() ==> self.in_flight@[p]@ != self.in_flight@[q]@
    }

    /// An empty coordinator: nothing cached, nothing in flight.
    pub fn new() -> (r: Self)
        ensures
            r.wf(),
            forall|k: Option<Seq<char>>| !r.is_in_flight(k),
            forall|k: Option<Seq<char>>| r.cache.spec_get(k) is None,
    {
        SingleFlightCache { cache: TtlCache::new(), in_flight: Vec::new() }
    }

    fn flight_index(&self, key: &CacheKey) -> (r: Option<usize>)
        ensures
            match r {
                Some(i) => i < self.in_flight@.len() && self.in_flight@[i as int]@ == key@,
                None => !self.is_in_flight(key@),
            },
    {
        let n = self.in_flight.len();
        let mut i: usize = 0;
        while i < n
            invariant
                n == self.in_flight@.len(),
                i <= n,
                forall|j: int| 0 <= j < i ==> self.in_flight@[j]@ != key@,
            decreases n - i,
        {
            if self.in_flight[i].key_eq(key) {
                return Some(i);
            }
            i = i + 1;
        }
        proof {
            if key_in(self.in_flight@, key@) {
                let j = choose|j: int|
                    0 <= j < self.in_flight@.len() && self.in_flight@[j]@ == key@;
                assert(false);
            }
        }
        None
    }

    /// Decides what a request for `key` at tick `now` should do, and marks
    /// the key in flight when the decision is [`FetchDecision::BeginFetch`].
    /// The cache itself is never touched here, and a fetch is begun only for
    /// a key that is expired (or absent) and not already being fetched.
    pub fn on_request(&mut self, key: &CacheKey, now: u64, window: u64) -> (d: FetchDecision)
        requires
            old(self).wf(),
        ensures
            final(self).wf(),
            final(self).cache == old(self).cache,
            (d is ServeCached) <==> old(self).cache.spec_fresh(key@, now, window),
            (d is AwaitInFlight) <==> (!old(self).cache.spec_fresh(key@, now, window) && old(
                self,
            ).is_in_flight(key@)),
            (d is BeginFetch) <==> (!old(self).cache.spec_fresh(key@, now, window) && !old(
                self,
            ).is_in_flight(key@)),
            d is BeginFetch ==> forall|k: Option<Seq<char>>|
                final(self).is_in_flight(k) <==> (old(self).is_in_flight(k) || k == key@),
            !(d is BeginFetch) ==> *final(self) == *old(self),
    {
        let hit = self.cache.lookup(key, now, window);
        match hit {
            Some(_) => FetchDecision::ServeCached,
            None => {
                match self.flight_index(key) {
                    Some(i) => {
                        proof {
                            assert(key_in(self.in_flight@, key@));
                        }
                        FetchDecision::AwaitInFlight
                    },
                    None => {
                        let ghost f0 = self.in_flight@;
                        self.in_flight.push(key.duplicate());
                        proof {
                            assert forall|p: int, q: int|
                                0 <= p < q < self.in_flight@.len() implies self.in_flight@[p]@
                                != self.in_flight@[q]@ by {
                                if q < f0.len() {
                                    assert(f0[p]@ != f0[q]@);
                                } else {
                                    assert(self.in_flight@[q]@ == key@);
                                    assert(f0[p]@ != key@);
                                }
                            }
                            let f1 = self.in_flight@;
                            assert forall|k: Option<Seq<char>>|
                                key_in(f1, k) <==> (key_in(f0, k) || k == key@) by {
                                if key_in(f1, k) {
                                    let j = choose|j: int| 0 <= j < f1.len() && f1[j]@ == k;
                                    if j < f0.len() {
                                        assert(f0[j]@ == k);
                                    }
                                }
                                if key_in(f0, k) {
                                    let j = choose|j: int| 0 <= j < f0.len() && f0[j]@ == k;
                                    assert(f1[j]@ == k);
                                }
                                if k == key@ {
                                    assert(f1[f0.len() as int]@ == k);
                                }
                            }
                        }
                        FetchDecision::BeginFetch
                    },
                }
            },
        }
    }

    /// Applies the outcome of a completed fetch for `key`: the key is no
    /// longer in flight; a successful fetch replaces the key's entry with
    /// the new value stamped `now`, while a failed one surfaces the error
    /// and leaves the whole cache exactly as it was.  Either way no other
    /// key is touched.
    pub fn on_fetch_done<E>(&mut self, key: CacheKey, fetched: Result<V, E>, now: u64) -> (r:
        Result<(), E>)
        requires
            old(self).wf(),
            fetched is Ok ==> match old(self).cache.spec_get(key@) {
                Some(e) => e.fetched_at <= now,
                None => true,
            },
        ensures
            final(self).wf(),
            !final(self).is_in_flight(key@),
            forall|k: Option<Seq<char>>|
                k != key@ ==> (final(self).is_in_flight(k) <==> old(self).is_in_flight(k)),
            fetched matches Ok(v) ==> {
                &&& final(self).cache.spec_get(key@) == Some(
                    CacheEntry { value: v, fetched_at: now },
                )
                &&& forall|k: Option<Seq<char>>|
                    k != key@ ==> final(self).cache.spec_get(k) == old(self).cache.spec_get(k)
                &&& r is Ok
            },
            fetched matches Err(e) ==> final(self).cache == old(self).cache && r == Err::<(), E>(
                e,
            ),
    {
        let ghost f0 = self.in_flight@;
        match self.flight_index(&key) {
            Some(i) => {
                proof {
                    f0.remove_ensures(i as int);
                }
                let _ = self.in_flight.remove(i);
                proof {
                    assert forall|p: int, q: int|
                        0 <= p < q < self.in_flight@.len() implies self.in_flight@[p]@
                        != self.in_flight@[q]@ by {
                        let pp = if p < i { p } else { p + 1 };
                        let qq = if q < i { q } else { q + 1 };
                        assert(self.in_flight@[p] == f0[pp]);
                        assert(self.in_flight@[q] == f0[qq]);
                        assert(f0[pp]@ != f0[qq]@);
                    }
                    let f1 = self.in_flight@;
                    assert forall|j: int| 0 <= j < f1.len() implies f1[j]@ != key@ by {
                        if j < i {
                            assert(f1[j] == f0[j]);
                            assert(f0[j]@ != f0[i as int]@);
                        } else {
                            assert(f1[j] == f0[j + 1]);
                            assert(f0[i as int]@ != f0[j + 1]@);
                        }
                    }
                    if key_in(f1, key@) {
                        let j = choose|j: int| 0 <= j < f1.len() && f1[j]@ == key@;
                        assert(false);
                    }
                    assert forall|k: Option<Seq<char>>| k != key@ implies (key_in(f1, k)
                        <==> key_in(f0, k)) by {
                        if key_in(f1, k) {
                            let j = choose|j: int| 0 <= j < f1.len() && f1[j]@ == k;
                            let jj = if j < i { j } else { j + 1 };
                            assert(f0[jj]@ == k);
                        }
                        if key_in(f0, k) {
                            let j = choose|j: int| 0 <= j < f0.len() && f0[j]@ == k;
                            assert(j != i);
                            let jj = if j < i { j } else { j - 1 };
                            assert(f1[jj]@ == k);
                        }
                    }
                }
            },
            None => {},
        }
        match fetched {
            Ok(v) => {
                self.cache.store(key, v, now);
                Ok(())
            },
            Err(e) => Err(e),
        }
    }
}

/// Single-flight law: a request that was told to fetch leaves its key
/// marked in flight, so until that fetch completes, every further request
/// for the key — at any tick, under any window — is served from cache or
/// told to wait, never told to fetch a second time.
pub proof fn lemma_single_flight<V>(
    c0: SingleFlightCache<V>,
    c1: SingleFlightCache<V>,
    key: Option<Seq<char>>,
    now: u64,
    window: u64,
)
    requires
        forall|k: Option<Seq<char>>| c1.is_in_flight(k) <==> (c0.is_in_flight(k) || k == key),
    ensures
        c1.is_in_flight(key),
        !(!c1.cache.spec_fresh(key, now, window) && !c1.is_in_flight(key)),
{
    assert(c1.is_in_flight(key));
}

} // verus!
