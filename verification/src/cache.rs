//! Time-bounded lookup caches for channel data.
//!
//! A cache maps a 64-bit channel identifier to its last-known value, holds
//! at most a fixed number of entries, and forgets an entry once a configured
//! idle duration passes without an access to it.  When an insertion would
//! exceed the capacity, the least-recently-accessed entry is evicted first.
//! Time enters only as an explicit "now" argument, a count of elapsed
//! seconds supplied by the caller.
//!
//! Entries are kept in access order: the front of `entries` is the least
//! recently accessed.  Every hit and every insertion moves the touched entry
//! to the back and stamps it with the current time.
//!
//! Concurrent calls for the same key during a miss are not coalesced:
//! callers that race a miss may each fetch.  That duplication is an accepted
//! tradeoff, not an invariant of this component.

use vstd::prelude::*;

verus! {

/// Why a remote fetch failed: the requested entity is absent, or the remote
/// call itself failed for network or protocol reasons.
#[derive(Clone, Copy, Debug, PartialEq, Eq, Structural)]
pub enum FetchError {
    NotFound,
    Transport,
}

/// Cloning with a contract: `dup` returns a value equal to the original.
/// The cache stores owned values and hands out copies, so it needs this
/// guarantee from its value type.
pub trait ValueClone: Sized {
    fn dup(&self) -> (r: Self)
        ensures
            r == *self,
    ;
}

impl ValueClone for String {
    fn dup(&self) -> (r: Self) {
        self.clone()
    }
}

/// Last-known metadata of a channel: its identifier, display name, and
/// whether it is flagged as restricted (age-restricted content).
#[derive(Clone, Debug, PartialEq)]
pub struct ChannelMetadata {
    pub channel_id: u64,
    pub display_name: String,
    pub is_restricted: bool,
}

impl ValueClone for ChannelMetadata {
    fn dup(&self) -> (r: Self) {
        ChannelMetadata {
            channel_id: self.channel_id,
            display_name: self.display_name.clone(),
            is_restricted: self.is_restricted,
        }
    }
}

/// One cached value together with its key and the time of its last access.
pub struct CacheEntry<V> {
    pub key: u64,
    pub value: V,
    pub last_access_s: u64,
}

/// No two entries share a key.
pub open spec fn keys_unique<V>(s: Seq<CacheEntry<V>>) -> bool {
    forall|p: int, q: int|
        #![trigger s[p], s[q]]
        0 <= p < q < s.len() ==> s[p].key != s[q].key
}

/// Some entry has key `key`.
pub open spec fn has_key<V>(s: Seq<CacheEntry<V>>, key: u64) -> bool {
    exists|p: int| #![trigger s[p]] 0 <= p < s.len() && s[p].key == key
}

/// Index of the entry with key `key` (meaningful when `has_key` holds and
/// keys are unique).
pub open spec fn key_index<V>(s: Seq<CacheEntry<V>>, key: u64) -> int {
    choose|p: int| #![trigger s[p]] 0 <= p < s.len() && s[p].key == key
}

/// Value stored under `key`.
pub open spec fn stored_value<V>(s: Seq<CacheEntry<V>>, key: u64) -> V {
    s[key_index(s, key)].value
}

/// Time of the last access to `key`.
pub open spec fn stored_stamp<V>(s: Seq<CacheEntry<V>>, key: u64) -> u64 {
    s[key_index(s, key)].last_access_s
}

/// Every access stamp lies at or before `now_s`.
pub open spec fn stamps_bounded<V>(s: Seq<CacheEntry<V>>, now_s: u64) -> bool {
    forall|p: int| #![trigger s[p]] 0 <= p < s.len() ==> s[p].last_access_s <= now_s
}

/// The entry for `key` exists and its idle duration has not yet elapsed at
/// `now_s`: strictly less than `tti_s` seconds have passed since its last
/// access.
pub open spec fn fresh_at<V>(s: Seq<CacheEntry<V>>, key: u64, now_s: u64, tti_s: u64) -> bool {
    has_key(s, key) && now_s < stored_stamp(s, key) + tti_s
}

/// What a lookup at `now_s` returns: the stored value while the entry is
/// fresh, and nothing once the idle duration has elapsed (or the key was
/// never stored, or was evicted).
pub open spec fn spec_lookup<V>(s: Seq<CacheEntry<V>>, key: u64, now_s: u64, tti_s: u64) -> Option<
    V,
> {
    if fresh_at(s, key, now_s, tti_s) {
        Some(stored_value(s, key))
    } else {
        None
    }
}

/// The entry sequence after a hit on `key` at `now_s`: the entry moves to
/// the back (most recently accessed) with a refreshed stamp.
pub open spec fn spec_touch<V>(s: Seq<CacheEntry<V>>, key: u64, now_s: u64) -> Seq<CacheEntry<V>> {
    s.remove(key_index(s, key)).push(
        (CacheEntry { key, value: stored_value(s, key), last_access_s: now_s }),
    )
}

/// The entry sequence after storing `value` under `key` at `now_s`: an
/// existing entry is replaced in place of recency (moved to the back); a new
/// key evicts the least-recently-accessed entry first when the cache is
/// full.
pub open spec fn spec_insert<V>(
    s: Seq<CacheEntry<V>>,
    key: u64,
    value: V,
    now_s: u64,
    capacity: int,
) -> Seq<CacheEntry<V>> {
    let entry = CacheEntry { key, value, last_access_s: now_s };
    if has_key(s, key) {
        s.remove(key_index(s, key)).push(entry)
    } else if s.len() >= capacity {
        s.subrange(1, s.len() as int).push(entry)
    } else {
        s.push(entry)
    }
}

/// If entry `p` has key `key` and keys are unique, `p` is the index the
/// specification functions speak of.
pub proof fn lemma_key_index<V>(s: Seq<CacheEntry<V>>, key: u64, p: int)
    requires
        keys_unique(s),
        0 <= p < s.len(),
        s[p].key == key,
    ensures
        has_key(s, key),
        key_index(s, key) == p,
{
    assert(has_key(s, key));
    let q = key_index(s, key);
    assert(0 <= q < s.len() && s[q].key == key);
    if p < q {
        assert(s[p].key != s[q].key);
    } else if q < p {
        assert(s[q].key != s[p].key);
    }
}

proof fn lemma_unique_after_replace<V>(s: Seq<CacheEntry<V>>, idx: int, e: CacheEntry<V>)
    requires
        keys_unique(s),
        0 <= idx < s.len(),
        e.key == s[idx].key,
    ensures
        keys_unique(s.remove(idx).push(e)),
        has_key(s.remove(idx).push(e), e.key),
        key_index(s.remove(idx).push(e), e.key) == s.len() - 1,
{
    let t = s.remove(idx).push(e);
    assert(t.len() == s.len());
    assert forall|p: int, q: int|
        #![trigger t[p], t[q]]
        0 <= p < q < t.len() implies t[p].key != t[q].key by {
        let sp = if p < idx {
            p
        } else {
            p + 1
        };
        let sq = if q < idx {
            q
        } else {
            q + 1
        };
        if q < t.len() - 1 {
            assert(t[p] == s[sp]);
            assert(t[q] == s[sq]);
        } else {
            assert(t[q] == e);
            assert(t[p] == s[sp]);
            assert(sp != idx);
            assert(s[sp].key != s[idx].key);
        }
    }
    assert(t[t.len() - 1] == e);
    lemma_key_index(t, e.key, t.len() - 1);
}

proof fn lemma_unique_after_push_new<V>(s: Seq<CacheEntry<V>>, e: CacheEntry<V>)
    requires
        keys_unique(s),
        !has_key(s, e.key),
    ensures
        keys_unique(s.push(e)),
        has_key(s.push(e), e.key),
        key_index(s.push(e), e.key) == s.len(),
{
    let t = s.push(e);
    assert forall|p: int, q: int|
        #![trigger t[p], t[q]]
        0 <= p < q < t.len() implies t[p].key != t[q].key by {
        if q < t.len() - 1 {
            assert(t[p] == s[p]);
            assert(t[q] == s[q]);
        } else {
            assert(t[p] == s[p]);
            assert(t[q] == e);
        }
    }
    assert(t[t.len() - 1] == e);
    lemma_key_index(t, e.key, t.len() - 1);
}

proof fn lemma_unique_after_evict<V>(s: Seq<CacheEntry<V>>)
    requires
        keys_unique(s),
        s.len() >= 1,
    ensures
        keys_unique(s.subrange(1, s.len() as int)),
        forall|key: u64| !has_key(s, key) ==> !has_key(#[trigger] s.subrange(1, s.len() as int), key),
{
    let t = s.subrange(1, s.len() as int);
    assert forall|p: int, q: int|
        #![trigger t[p], t[q]]
        0 <= p < q < t.len() implies t[p].key != t[q].key by {
        assert(t[p] == s[p + 1]);
        assert(t[q] == s[q + 1]);
    }
    assert forall|key: u64| !has_key(s, key) implies !has_key(t, key) by {
        if has_key(t, key) {
            let p = choose|p: int| #![trigger t[p]] 0 <= p < t.len() && t[p].key == key;
            assert(s[p + 1].key == key);
        }
    }
}

/// Time-bounded, capacity-bounded cache keyed by 64-bit identifiers.
pub struct IdleCache<V> {
    pub entries: Vec<CacheEntry<V>>,
    pub capacity: usize,
    pub idle_timeout_s: u64,
}

impl<V: ValueClone> IdleCache<V> {
    /// Structural invariant: distinct keys, at most `capacity` entries, and
    /// a meaningful configuration.
    pub open spec fn wf(self) -> bool {
        &&& keys_unique(self.entries@)
        &&& self.entries@.len() <= self.capacity
        &&& self.capacity >= 1
        &&& self.idle_timeout_s >= 1
    }

    /// An empty cache with the given capacity and idle timeout, both fixed
    /// for the cache's lifetime.
    pub fn new(capacity: usize, idle_timeout_s: u64) -> (r: Self)
        requires
            capacity >= 1,
            idle_timeout_s >= 1,
        ensures
            r.wf(),
            r.entries@.len() == 0,
            r.capacity == capacity,
            r.idle_timeout_s == idle_timeout_s,
    {
        IdleCache { entries: Vec::new(), capacity, idle_timeout_s }
    }

    fn find_index(&self, key: u64) -> (r: Option<usize>)
        requires
            keys_unique(self.entries@),
        ensures
            match r {
                Some(p) => {
                    &&& p < self.entries@.len()
                    &&& self.entries@[p as int].key == key
                    &&& has_key(self.entries@, key)
                    &&& key_index(self.entries@, key) == p
                },
                None => !has_key(self.entries@, key),
            },
    {
        let n = self.entries.len();
        let mut p: usize = 0;
        while p < n
            invariant
                n == self.entries@.len(),
                keys_unique(self.entries@),
                p <= n,
                forall|q: int| #![trigger self.entries@[q]] 0 <= q < p ==> self.entries@[q].key != key,
            decreases n - p,
        {
            if self.entries[p].key == key {
                proof {
                    lemma_key_index(self.entries@, key, p as int);
                }
                return Some(p);
            }
            p = p + 1;
        }
        None
    }

    /// Looks `key` up at time `now_s`.  A fresh entry is returned and
    /// counts as accessed: it moves to the back and its stamp becomes
    /// `now_s`.  An absent or idle-expired entry yields nothing and leaves
    /// the cache unchanged.
    pub fn lookup(&mut self, key: u64, now_s: u64) -> (r: Option<V>)
        requires
            old(self).wf(),
            stamps_bounded(old(self).entries@, now_s),
        ensures
            final(self).wf(),
            final(self).capacity == old(self).capacity,
            final(self).idle_timeout_s == old(self).idle_timeout_s,
            stamps_bounded(final(self).entries@, now_s),
            r == spec_lookup(old(self).entries@, key, now_s, old(self).idle_timeout_s),
            r is Some ==> final(self).entries@ == spec_touch(old(self).entries@, key, now_s),
            r is None ==> final(self).entries@ == old(self).entries@,
    {
        let idx = match self.find_index(key) {
            Some(p) => p,
            None => {
                return None;
            },
        };
        let stamp = self.entries[idx].last_access_s;
        if now_s - stamp < self.idle_timeout_s {
            proof {
                lemma_unique_after_replace(
                    self.entries@,
                    idx as int,
                    (CacheEntry {
                        key,
                        value: self.entries@[idx as int].value,
                        last_access_s: now_s,
                    }),
                );
            }
            let e = self.entries.remove(idx);
            let result = e.value.dup();
            self.entries.push(CacheEntry { key, value: e.value, last_access_s: now_s });
            Some(result)
        } else {
            None
        }
    }

    /// Stores `value` under `key` at time `now_s`.  An existing entry for
    /// the key is replaced and its idle timer restarts; a new key evicts the
    /// least-recently-accessed entry first when the cache is already full.
    pub fn insert(&mut self, key: u64, value: V, now_s: u64)
        requires
            old(self).wf(),
            stamps_bounded(old(self).entries@, now_s),
        ensures
            final(self).wf(),
            final(self).capacity == old(self).capacity,
            final(self).idle_timeout_s == old(self).idle_timeout_s,
            stamps_bounded(final(self).entries@, now_s),
            final(self).entries@ == spec_insert(
                old(self).entries@,
                key,
                value,
                now_s,
                old(self).capacity as int,
            ),
            has_key(final(self).entries@, key),
            stored_value(final(self).entries@, key) == value,
            stored_stamp(final(self).entries@, key) == now_s,
            fresh_at(final(self).entries@, key, now_s, final(self).idle_timeout_s),
    {
        match self.find_index(key) {
            Some(idx) => {
                proof {
                    lemma_unique_after_replace(
                        self.entries@,
                        idx as int,
                        (CacheEntry { key, value, last_access_s: now_s }),
                    );
                }
                self.entries.remove(idx);
                self.entries.push(CacheEntry { key, value, last_access_s: now_s });
            },
            None => {
                if self.entries.len() == self.capacity {
                    proof {
                        lemma_unique_after_evict(self.entries@);
                        assert(self.entries@.remove(0) =~= self.entries@.subrange(
                            1,
                            self.entries@.len() as int,
                        ));
                    }
                    self.entries.remove(0);
                }
                proof {
                    lemma_unique_after_push_new(
                        self.entries@,
                        (CacheEntry { key, value, last_access_s: now_s }),
                    );
                }
                self.entries.push(CacheEntry { key, value, last_access_s: now_s });
            },
        }
    }

    /// Returns the cached value for `key` when it is present and not
    /// idle-expired, without invoking `fetch`.  On a miss, invokes `fetch`
    /// exactly once: a fetched value is stored (restarting the idle timer)
    /// and returned, and a fetch failure is propagated with no write.
    pub fn get_or_fetch<F: FnOnce() -> Result<V, FetchError>>(
        &mut self,
        key: u64,
        now_s: u64,
        fetch: F,
    ) -> (r: Result<V, FetchError>)
        requires
            old(self).wf(),
            stamps_bounded(old(self).entries@, now_s),
            fetch.requires(()),
        ensures
            final(self).wf(),
            final(self).capacity == old(self).capacity,
            final(self).idle_timeout_s == old(self).idle_timeout_s,
            stamps_bounded(final(self).entries@, now_s),
            get_or_fetch_post(
                old(self).entries@,
                final(self).entries@,
                key,
                now_s,
                old(self).capacity as int,
                old(self).idle_timeout_s,
                fetch,
                r,
            ),
            r matches Ok(v) ==> {
                &&& fresh_at(final(self).entries@, key, now_s, final(self).idle_timeout_s)
                &&& stored_value(final(self).entries@, key) == v
                &&& stored_stamp(final(self).entries@, key) == now_s
            },
    {
        match self.lookup(key, now_s) {
            Some(v) => {
                proof {
                    let s = old(self).entries@;
                    lemma_unique_after_replace(
                        s,
                        key_index(s, key),
                        (CacheEntry { key, value: stored_value(s, key), last_access_s: now_s }),
                    );
                }
                Ok(v)
            },
            None => {
                let fetched = fetch();
                match fetched {
                    Ok(v) => {
                        let result = v.dup();
                        self.insert(key, v, now_s);
                        proof {
                            assert(call_ensures(fetch, (), Ok::<V, FetchError>(result)));
                        }
                        Ok(result)
                    },
                    Err(e) => Err(e),
                }
            },
        }
    }
}

/// Relation between the cache contents before and after `get_or_fetch`, its
/// result, and the fetch closure: a fresh entry is returned as a hit and
/// merely touched; otherwise the result and the new contents are those of
/// one fetch outcome (stored on success, cache unchanged on failure).
pub open spec fn get_or_fetch_post<V, F: FnOnce() -> Result<V, FetchError>>(
    pre: Seq<CacheEntry<V>>,
    post: Seq<CacheEntry<V>>,
    key: u64,
    now_s: u64,
    capacity: int,
    tti_s: u64,
    fetch: F,
    r: Result<V, FetchError>,
) -> bool {
    match spec_lookup(pre, key, now_s, tti_s) {
        Some(v) => r == Ok::<V, FetchError>(v) && post == spec_touch(pre, key, now_s),
        None => exists|fr: Result<V, FetchError>|
            {
                &&& #[trigger] call_ensures(fetch, (), fr)
                &&& match fr {
                    Ok(v) => r == Ok::<V, FetchError>(v) && post == spec_insert(
                        pre,
                        key,
                        v,
                        now_s,
                        capacity,
                    ),
                    Err(e) => r == Err::<V, FetchError>(e) && post == pre,
                }
            },
    }
}

/// Two accesses in succession: a value cached or refreshed at `t1` is still
/// the lookup result at any `t2` within the idle window, so a second
/// `get_or_fetch` before the idle timeout elapses takes the hit branch of
/// [`get_or_fetch_post`] and does not consult the fetcher again.
pub proof fn law_second_access_is_hit<V>(
    s: Seq<CacheEntry<V>>,
    key: u64,
    v: V,
    t1: u64,
    t2: u64,
    tti_s: u64,
)
    requires
        has_key(s, key),
        stored_value(s, key) == v,
        stored_stamp(s, key) == t1,
        t1 <= t2,
        t2 < t1 + tti_s,
    ensures
        spec_lookup(s, key, t2, tti_s) == Some(v),
{
}

/// Idle expiry: once the idle duration has elapsed since the last access to
/// `key`, a lookup yields nothing, so the next `get_or_fetch` takes the
/// miss branch of [`get_or_fetch_post`] and triggers a fresh fetch.
pub proof fn law_idle_entry_expires<V>(
    s: Seq<CacheEntry<V>>,
    key: u64,
    t1: u64,
    t2: u64,
    tti_s: u64,
)
    requires
        has_key(s, key) ==> stored_stamp(s, key) == t1,
        t2 >= t1 + tti_s,
    ensures
        spec_lookup(s, key, t2, tti_s) is None,
{
}

} // verus!
