//! The keyed TTL cache.
//!
//! One entry is memoized per key; an entry is replaced wholesale on each
//! refresh and expires purely by age, measured on a caller-supplied tick
//! clock.  Failed refreshes never touch the stored entries, so a stale value
//! survives a fetch error and stays servable.

use vstd::prelude::*;

verus! {

/// A cache key: either the single global (unfiltered) feed, or the scope of
/// one symbol.  The two key spaces never collide.
#[derive(Debug)]
pub enum CacheKey {
    Global,
    Symbol(String),
}

impl View for CacheKey {
    type V = Option<Seq<char>>;

    open spec fn view(&self) -> Option<Seq<char>> {
        match self {
            CacheKey::Global => None,
            CacheKey::Symbol(s) => Some(s@),
        }
    }
}

impl CacheKey {
    /// Whether two keys name the same cache slot.
    pub fn key_eq(&self, other: &CacheKey) -> (r: bool)
        ensures
            r == (self@ == other@),
    {
        match (self, other) {
            (CacheKey::Global, CacheKey::Global) => true,
            (CacheKey::Symbol(a), CacheKey::Symbol(b)) => a.eq(b),
            _ => false,
        }
    }

    /// An owned copy of the key.
    pub fn duplicate(&self) -> (r: CacheKey)
        ensures
            r == *self,
    {
        match self {
            CacheKey::Global => CacheKey::Global,
            CacheKey::Symbol(s) => CacheKey::Symbol(s.clone()),
        }
    }
}

/// One memoized value together with the tick at which its fetch succeeded.
pub struct CacheEntry<V> {
    pub value: V,
    pub fetched_at: u64,
}

/// Whether a value fetched at tick `fetched_at` is still fresh at tick `now`
/// under a window of `window` ticks.
pub open spec fn fresh_at(fetched_at: u64, now: u64, window: u64) -> bool {
    fetched_at <= now < fetched_at + window
}

/// The first entry for `key` in a list of keyed entries, if any.
pub open spec fn entry_for<V>(
    s: Seq<(CacheKey, CacheEntry<V>)>,
    key: Option<Seq<char>>,
) -> Option<CacheEntry<V>>
    decreases s.len(),
{
    if s.len() == 0 {
        None
    } else if s[0].0@ == key {
        Some(s[0].1)
    } else {
        entry_for(s.drop_first(), key)
    }
}

proof fn lemma_entry_for_at<V>(s: Seq<(CacheKey, CacheEntry<V>)>, key: Option<Seq<char>>, i: int)
    requires
        0 <= i < s.len(),
        s[i].0@ == key,
        forall|j: int| 0 <= j < i ==> s[j].0@ != key,
    ensures
        entry_for(s, key) == Some(s[i].1),
    decreases i,
{
    if i > 0 {
        let t = s.drop_first();
        assert forall|j: int| 0 <= j < i - 1 implies t[j].0@ != key by {
            assert(t[j] == s[j + 1]);
        }
        assert(t[i - 1] == s[i]);
        lemma_entry_for_at(t, key, i - 1);
    }
}

proof fn lemma_entry_for_absent<V>(s: Seq<(CacheKey, CacheEntry<V>)>, key: Option<Seq<char>>)
    requires
        forall|j: int| 0 <= j < s.len() ==> s[j].0@ != key,
    ensures
        entry_for(s, key) is None,
    decreases s.len(),
{
    if s.len() > 0 {
        let t = s.drop_first();
        assert forall|j: int| 0 <= j < t.len() implies t[j].0@ != key by {
            assert(t[j] == s[j + 1]);
        }
        lemma_entry_for_absent(t, key);
    }
}

proof fn lemma_entry_for_update<V>(
    s: Seq<(CacheKey, CacheEntry<V>)>,
    i: int,
    nk: CacheKey,
    e: CacheEntry<V>,
)
    requires
        0 <= i < s.len(),
        nk@ == s[i].0@,
        forall|j: int| 0 <= j < i ==> s[j].0@ != nk@,
    ensures
        entry_for(s.update(i, (nk, e)), nk@) == Some(e),
        forall|k: Option<Seq<char>>|
            k != nk@ ==> entry_for(s.update(i, (nk, e)), k) == entry_for(s, k),
    decreases s.len(),
{
    let s2 = s.update(i, (nk, e));
    if i == 0 {
        assert(s2[0] == (nk, e));
        assert(s2.drop_first() =~= s.drop_first());
        assert forall|k: Option<Seq<char>>| k != nk@ implies entry_for(s2, k) == entry_for(
            s,
            k,
        ) by {
            assert(entry_for(s2, k) == entry_for(s2.drop_first(), k));
            assert(entry_for(s, k) == entry_for(s.drop_first(), k));
        }
    } else {
        assert(s2[0] == s[0]);
        assert(s[0].0@ != nk@);
        let t = s.drop_first();
        let t2 = s2.drop_first();
        assert forall|j: int| 0 <= j < i - 1 implies t[j].0@ != nk@ by {
            assert(t[j] == s[j + 1]);
        }
        assert(t[i - 1] == s[i]);
        assert(t2 =~= t.update(i - 1, (nk, e)));
        lemma_entry_for_update(t, i - 1, nk, e);
        assert(entry_for(s2, nk@) == entry_for(t2, nk@));
        assert forall|k: Option<Seq<char>>| k != nk@ implies entry_for(s2, k) == entry_for(
            s,
            k,
        ) by {
            if s[0].0@ == k {
                assert(entry_for(s2, k) == Some(s2[0].1));
                assert(entry_for(s, k) == Some(s[0].1));
            } else {
                assert(entry_for(s2, k) == entry_for(t2, k));
                assert(entry_for(s, k) == entry_for(t, k));
            }
        }
    }
}

proof fn lemma_entry_for_push<V>(s: Seq<(CacheKey, CacheEntry<V>)>, nk: CacheKey, e: CacheEntry<V>)
    requires
        forall|j: int| 0 <= j < s.len() ==> s[j].0@ != nk@,
    ensures
        entry_for(s.push((nk, e)), nk@) == Some(e),
        forall|k: Option<Seq<char>>| k != nk@ ==> entry_for(s.push((nk, e)), k) == entry_for(s, k),
    decreases s.len(),
{
    let s2 = s.push((nk, e));
    if s.len() == 0 {
        assert(s2[0] == (nk, e));
        assert(s2.drop_first() =~= Seq::<(CacheKey, CacheEntry<V>)>::empty());
        assert forall|k: Option<Seq<char>>| k != nk@ implies entry_for(s2, k) == entry_for(
            s,
            k,
        ) by {
            assert(entry_for(s2, k) == entry_for(s2.drop_first(), k));
        }
    } else {
        assert(s2[0] == s[0]);
        let t = s.drop_first();
        let t2 = s2.drop_first();
        assert forall|j: int| 0 <= j < t.len() implies t[j].0@ != nk@ by {
            assert(t[j] == s[j + 1]);
        }
        assert(t2 =~= t.push((nk, e)));
        lemma_entry_for_push(t, nk, e);
        assert(s[0].0@ != nk@);
        assert(entry_for(s2, nk@) == entry_for(t2, nk@));
        assert forall|k: Option<Seq<char>>| k != nk@ implies entry_for(s2, k) == entry_for(
            s,
            k,
        ) by {
            if s[0].0@ == k {
                assert(entry_for(s2, k) == Some(s2[0].1));
            } else {
                assert(entry_for(s2, k) == entry_for(t2, k));
                assert(entry_for(s, k) == entry_for(t, k));
            }
        }
    }
}

proof fn lemma_entry_for_remove<V>(s: Seq<(CacheKey, CacheEntry<V>)>, i: int)
    requires
        0 <= i < s.len(),
        forall|p: int, q: int| 0 <= p < q < s.len() ==> s[p].0@ != s[q].0@,
    ensures
        entry_for(s.remove(i), s[i].0@) is None,
        forall|k: Option<Seq<char>>| k != s[i].0@ ==> entry_for(s.remove(i), k) == entry_for(s, k),
    decreases s.len(),
{
    let s2 = s.remove(i);
    s.remove_ensures(i);
    if i == 0 {
        assert(s2 =~= s.drop_first());
        assert forall|j: int| 0 <= j < s2.len() implies s2[j].0@ != s[0].0@ by {
            assert(s2[j] == s[j + 1]);
        }
        lemma_entry_for_absent(s2, s[0].0@);
        assert forall|k: Option<Seq<char>>| k != s[0].0@ implies entry_for(s2, k) == entry_for(
            s,
            k,
        ) by {
            assert(entry_for(s, k) == entry_for(s.drop_first(), k));
        }
    } else {
        assert(s2[0] == s[0]);
        let t = s.drop_first();
        let t2 = s2.drop_first();
        assert forall|p: int, q: int| 0 <= p < q < t.len() implies t[p].0@ != t[q].0@ by {
            assert(t[p] == s[p + 1]);
            assert(t[q] == s[q + 1]);
        }
        assert(t2 =~= t.remove(i - 1));
        assert(t[i - 1] == s[i]);
        lemma_entry_for_remove(t, i - 1);
        assert(s[0].0@ != s[i].0@);
        assert(entry_for(s2, s[i].0@) == entry_for(t2, s[i].0@));
        assert forall|k: Option<Seq<char>>| k != s[i].0@ implies entry_for(s2, k) == entry_for(
            s,
            k,
        ) by {
            if s[0].0@ == k {
                assert(entry_for(s2, k) == Some(s2[0].1));
            } else {
                assert(entry_for(s2, k) == entry_for(t2, k));
                assert(entry_for(s, k) == entry_for(t, k));
            }
        }
    }
}

/// A keyed TTL cache: at most one memoized value per key.  Entries are
/// created on the first successful fetch for a key, replaced wholesale on a
/// refresh, and never removed except through [`TtlCache::invalidate`].
pub struct TtlCache<V> {
    pub entries: Vec<(CacheKey, CacheEntry<V>)>,
}

impl<V> TtlCache<V> {
    /// The entry currently stored for `key`.
    pub open spec fn spec_get(&self, key: Option<Seq<char>>) -> Option<CacheEntry<V>> {
        entry_for(self.entries@, key)
    }

    /// Whether `key` holds a value that is still fresh at `now` under
    /// `window`.
    pub open spec fn spec_fresh(&self, key: Option<Seq<char>>, now: u64, window: u64) -> bool {
        match self.spec_get(key) {
            Some(e) => fresh_at(e.fetched_at, now, window),
            None => false,
        }
    }

    /// Each key occupies at most one slot.
    pub open spec fn wf(&self) -> bool {
        forall|p: int, q: int|
            0 <= p < q < self.entries@.len() ==> self.entries@[p].0@ != self.entries@[q].0@
    }

    /// An empty cache.
    pub fn new() -> (r: Self)
        ensures
            r.wf(),
            forall|k: Option<Seq<char>>| r.spec_get(k) is None,
    {
        let r = TtlCache { entries: Vec::new() };
        proof {
            assert forall|k: Option<Seq<char>>| r.spec_get(k) is None by {
                lemma_entry_for_absent(r.entries@, k);
            }
        }
        r
    }

    fn find_index(&self, key: &CacheKey) -> (r: Option<usize>)
        ensures
            match r {
                Some(i) => {
                    &&& i < self.entries@.len()
                    &&& self.entries@[i as int].0@ == key@
                    &&& forall|j: int| 0 <= j < i ==> self.entries@[j].0@ != key@
                },
                None => forall|j: int| 0 <= j < self.entries@.len() ==> self.entries@[j].0@ != key@,
            },
    {
        let n = self.entries.len();
        let mut i: usize = 0;
        while i < n
            invariant
                n == self.entries@.len(),
                i <= n,
                forall|j: int| 0 <= j < i ==> self.entries@[j].0@ != key@,
            decreases n - i,
        {
            if self.entries[i].0.key_eq(key) {
                return Some(i);
            }
            i = i + 1;
        }
        None
    }

    /// Serves the cached value for `key` if one exists and its age at `now`
    /// is still below `window`; a missing or expired entry yields `None` and
    /// leaves it to the caller to fetch.
    pub fn lookup(&self, key: &CacheKey, now: u64, window: u64) -> (r: Option<&V>)
        ensures
            self.spec_fresh(key@, now, window) ==> (r matches Some(v) && *v == self.spec_get(
                key@,
            ).unwrap().value),
            !self.spec_fresh(key@, now, window) ==> r is None,
    {
        match self.find_index(key) {
            None => {
                proof {
                    lemma_entry_for_absent(self.entries@, key@);
                }
                None
            },
            Some(i) => {
                proof {
                    lemma_entry_for_at(self.entries@, key@, i as int);
                }
                let e = &self.entries[i].1;
                if e.fetched_at <= now && now - e.fetched_at < window {
                    Some(&e.value)
                } else {
                    None
                }
            },
        }
    }

    /// Records a successful fetch for `key`: the entry becomes `value`,
    /// stamped `now`.  Every other key's entry is untouched.
    pub fn store(&mut self, key: CacheKey, value: V, now: u64)
        requires
            old(self).wf(),
            match old(self).spec_get(key@) {
                Some(e) => e.fetched_at <= now,
                None => true,
            },
        ensures
            final(self).wf(),
            final(self).spec_get(key@) == Some(CacheEntry { value, fetched_at: now }),
            forall|k: Option<Seq<char>>|
                k != key@ ==> final(self).spec_get(k) == old(self).spec_get(k),
    {
        let e = CacheEntry { value, fetched_at: now };
        let ghost s0 = self.entries@;
        match self.find_index(&key) {
            Some(i) => {
                proof {
                    lemma_entry_for_update(s0, i as int, key, e);
                }
                self.entries[i] = (key, e);
                proof {
                    assert forall|p: int, q: int|
                        0 <= p < q < self.entries@.len() implies self.entries@[p].0@
                        != self.entries@[q].0@ by {
                        assert(s0[p].0@ != s0[q].0@);
                    }
                }
            },
            None => {
                proof {
                    lemma_entry_for_push(s0, key, e);
                }
                self.entries.push((key, e));
                proof {
                    assert forall|p: int, q: int|
                        0 <= p < q < self.entries@.len() implies self.entries@[p].0@
                        != self.entries@[q].0@ by {
                        if q < s0.len() {
                            assert(s0[p].0@ != s0[q].0@);
                        } else {
                            assert(s0[p].0@ != key@);
                        }
                    }
                }
            },
        }
    }

    /// Drops the entry for `key`, if any; every other key's entry is
    /// untouched.
    pub fn invalidate(&mut self, key: &CacheKey)
        requires
            old(self).wf(),
        ensures
            final(self).wf(),
            final(self).spec_get(key@) is None,
            forall|k: Option<Seq<char>>|
                k != key@ ==> final(self).spec_get(k) == old(self).spec_get(k),
    {
        let ghost s0 = self.entries@;
        match self.find_index(key) {
            None => {
                proof {
                    lemma_entry_for_absent(s0, key@);
                }
            },
            Some(i) => {
                proof {
                    lemma_entry_for_remove(s0, i as int);
                    s0.remove_ensures(i as int);
                }
                let _ = self.entries.remove(i);
                proof {
                    assert forall|p: int, q: int|
                        0 <= p < q < self.entries@.len() implies self.entries@[p].0@
                        != self.entries@[q].0@ by {
                        let pp = if p < i { p } else { p + 1 };
                        let qq = if q < i { q } else { q + 1 };
                        assert(self.entries@[p] == s0[pp]);
                        assert(self.entries@[q] == s0[qq]);
                        assert(s0[pp].0@ != s0[qq].0@);
                    }
                }
            },
        }
    }
}

/// TTL law: while the window has not elapsed since the last successful
/// store for a key, the cache still counts the stored value as fresh, so
/// [`TtlCache::lookup`] serves exactly that value and no new fetch is due.
pub proof fn lemma_ttl_serves_stored<V>(
    c: TtlCache<V>,
    key: Option<Seq<char>>,
    stored_at: u64,
    now: u64,
    window: u64,
    v: V,
)
    requires
        c.spec_get(key) == Some(CacheEntry { value: v, fetched_at: stored_at }),
        stored_at <= now < stored_at + window,
    ensures
        c.spec_fresh(key, now, window),
        c.spec_get(key).unwrap().value == v,
{
}

/// Stale-on-error law: a failed refresh surfaces its error but leaves the
/// whole cache exactly as it was — the expired entry is neither lost nor
/// corrupted — and a later successful refresh for the key stores the new
/// value as if the failure had never happened, still touching no other key.
/// `c0` is the cache when the refresh fails, `c1` the cache right after the
/// failure, `c2` the cache after the later successful store.
pub proof fn lemma_stale_on_error<V>(
    c0: TtlCache<V>,
    c1: TtlCache<V>,
    c2: TtlCache<V>,
    key: Option<Seq<char>>,
    e0: CacheEntry<V>,
    v: V,
    t: u64,
)
    requires
        c0.spec_get(key) == Some(e0),
        c1 == c0,
        c2.spec_get(key) == Some(CacheEntry { value: v, fetched_at: t }),
        forall|k: Option<Seq<char>>| k != key ==> c2.spec_get(k) == c1.spec_get(k),
    ensures
        c1.spec_get(key) == Some(e0),
        c2.spec_get(key) == Some(CacheEntry { value: v, fetched_at: t }),
        forall|k: Option<Seq<char>>| k != key ==> c2.spec_get(k) == c0.spec_get(k),
{
}

/// Expiry law: once `window` ticks have elapsed since an entry's fetch, the
/// entry no longer counts as fresh, so [`TtlCache::lookup`] misses and the
/// caller owes a new fetch for the key.
pub proof fn lemma_expired_entry_is_stale<V>(
    c: TtlCache<V>,
    key: Option<Seq<char>>,
    now: u64,
    window: u64,
)
    requires
        c.spec_get(key) matches Some(e) && now >= e.fetched_at + window,
    ensures
        !c.spec_fresh(key, now, window),
{
}

} // verus!
