//! The one-slot cache of a corpus enumeration.
//!
//! Time is a count of milliseconds on a clock of the caller's choice. The cache
//! never looks at a clock and never enumerates anything itself: it is asked
//! what to do at a given time, and is handed a fresh enumeration when it asked
//! for one.

use vstd::prelude::*;

verus! {

/// How long an enumeration stays valid, in milliseconds.
pub const CACHE_TTL_MS: u64 = 5000;

/// What a caller has to do before it may read the cached enumeration.
#[derive(Clone, Copy, Debug, PartialEq, Eq)]
pub enum CacheAction {
    /// The cached enumeration is still valid.
    Reuse,
    /// The corpus has to be enumerated anew and stored.
    Refresh,
}

/// The most recent enumeration, the time it was stored at, and its time to
/// live.
#[derive(Debug)]
pub struct EntriesCache {
    captured_at: u64,
    entries: Option<Vec<String>>,
    ttl: u64,
}

/// The time that has passed from `earlier` to `now`; none if the clock reads
/// less than it did.
pub open spec fn elapsed(earlier: u64, now: u64) -> int {
    if now >= earlier {
        now - earlier
    } else {
        0
    }
}

impl EntriesCache {
    /// The cached enumeration, if there is one.
    pub closed spec fn snapshot(&self) -> Option<Vec<String>> {
        self.entries
    }

    /// The time at which the enumeration was stored.
    pub closed spec fn captured_at(&self) -> u64 {
        self.captured_at
    }

    /// The time to live.
    pub closed spec fn ttl(&self) -> u64 {
        self.ttl
    }

    /// Whether the cache holds an enumeration that is not older than the time
    /// to live.
    pub open spec fn is_fresh(&self, now: u64) -> bool {
        self.snapshot() is Some && elapsed(self.captured_at(), now) <= self.ttl()
    }

    /// The cache after a fresh enumeration was stored at time `now`.
    pub closed spec fn stored(self, entries: Vec<String>, now: u64) -> Self {
        EntriesCache { captured_at: now, entries: Some(entries), ttl: self.ttl }
    }

    /// The cache after one search at time `now`, during which the corpus would
    /// enumerate as `current`: a fresh cache is left as it is, any other takes
    /// the current enumeration.
    pub open spec fn after_find(self, now: u64, current: Vec<String>) -> Self {
        if self.is_fresh(now) {
            self
        } else {
            self.stored(current, now)
        }
    }

    /// An empty cache with the standard time to live.
    pub fn new(now: u64) -> (c: Self)
        ensures
            c.snapshot() is None,
            c.captured_at() == now,
            c.ttl() == CACHE_TTL_MS,
    {
        EntriesCache { captured_at: now, entries: None, ttl: CACHE_TTL_MS }
    }

    /// An empty cache with a time to live of the caller's choice.
    pub fn with_ttl(now: u64, ttl: u64) -> (c: Self)
        ensures
            c.snapshot() is None,
            c.captured_at() == now,
            c.ttl() == ttl,
    {
        EntriesCache { captured_at: now, entries: None, ttl }
    }

    /// Decides whether the cached enumeration may be used at time `now`.
    pub fn poll(&self, now: u64) -> (a: CacheAction)
        ensures
            a == (if self.is_fresh(now) {
                CacheAction::Reuse
            } else {
                CacheAction::Refresh
            }),
    {
        match &self.entries {
            Some(_) => {
                let passed: u64 = if now >= self.captured_at {
                    now - self.captured_at
                } else {
                    0
                };
                if passed > self.ttl {
                    CacheAction::Refresh
                } else {
                    CacheAction::Reuse
                }
            },
            None => CacheAction::Refresh,
        }
    }

    /// Stores a fresh enumeration, taken at time `now`, in place of whatever
    /// the cache held.
    pub fn store(&mut self, entries: Vec<String>, now: u64)
        ensures
            *final(self) == old(self).stored(entries, now),
            final(self).snapshot() == Some(entries),
            final(self).captured_at() == now,
            final(self).ttl() == old(self).ttl(),
    {
        self.entries = Some(entries);
        self.captured_at = now;
    }

    /// The cached enumeration.
    pub fn entries(&self) -> (r: Option<&Vec<String>>)
        ensures
            match r {
                Some(v) => self.snapshot() == Some(*v),
                None => self.snapshot() is None,
            },
    {
        match &self.entries {
            Some(v) => Some(v),
            None => None,
        }
    }
}

/// What `stored` leaves behind.
pub proof fn lemma_stored(cache: EntriesCache, entries: Vec<String>, now: u64)
    ensures
        cache.stored(entries, now).snapshot() == Some(entries),
        cache.stored(entries, now).captured_at() == now,
        cache.stored(entries, now).ttl() == cache.ttl(),
{
}

/// Three searches through one cache: the first finds the cache stale and
/// stores the enumeration `first`; the second comes within the time to live
/// and sees `first` again, whatever the corpus holds by then; the third comes
/// after the time to live and sees what the corpus holds at that time.
pub proof fn lemma_cache_freshness(
    cache: EntriesCache,
    t0: u64,
    first: Vec<String>,
    t1: u64,
    second: Vec<String>,
    t2: u64,
    third: Vec<String>,
)
    requires
        !cache.is_fresh(t0),
        elapsed(t0, t1) <= cache.ttl(),
        elapsed(t0, t2) > cache.ttl(),
    ensures
        cache.after_find(t0, first).snapshot() == Some(first),
        cache.after_find(t0, first).after_find(t1, second).snapshot() == Some(first),
        cache.after_find(t0, first).after_find(t1, second).after_find(t2, third).snapshot() == Some(third),
{
    lemma_stored(cache, first, t0);
    let c1 = cache.after_find(t0, first);
    assert(c1.is_fresh(t1));
    assert(!c1.is_fresh(t2));
    lemma_stored(c1, third, t2);
}

} // verus!
