//! Per-source TTL cache.
//!
//! One cache instance shields one expensive external source from the
//! fast sampling loop. `get` returns a value only while it is younger
//! than the TTL; `set` stores with the current time and then sweeps out
//! every entry older than twice the TTL, bounding growth. Time is
//! passed in by the caller as seconds since the epoch, so the cache
//! itself is a pure data structure.

use vstd::prelude::*;
use crate::bytes::eq_bytes;

verus! {

/// One cached value with the key and capture time it was stored under.
pub struct CacheEntry<V> {
    pub key: Vec<u8>,
    pub value: V,
    pub captured_at: u64,
}

/// Key-addressed store of timestamped values with a fixed TTL.
pub struct DataCache<V> {
    pub entries: Vec<CacheEntry<V>>,
    pub ttl: u64,
}

/// An entry captured at `ts` is fresh at `now` while its age is below
/// `ttl`; an entry stamped in the future counts as stale.
pub open spec fn fresh_at(ts: u64, now: u64, ttl: u64) -> bool {
    now >= ts && (now as int) - (ts as int) < ttl as int
}

/// First entry with the given key, scanning from the front.
pub open spec fn spec_lookup<V>(s: Seq<CacheEntry<V>>, key: Seq<u8>) -> Option<CacheEntry<V>>
    decreases s.len(),
{
    if s.len() == 0 {
        None
    } else if s[0].key@ == key {
        Some(s[0])
    } else {
        spec_lookup(s.skip(1), key)
    }
}

/// The entries that survive a write under `key` at time `now`: entries
/// under another key whose age is still below twice the TTL.
pub open spec fn spec_swept<V>(s: Seq<CacheEntry<V>>, key: Seq<u8>, now: u64, ttl: u64) -> Seq<
    CacheEntry<V>,
>
    decreases s.len(),
{
    if s.len() == 0 {
        Seq::empty()
    } else {
        let pre = spec_swept(s.drop_last(), key, now, ttl);
        let e = s.last();
        if e.key@ != key && now >= e.captured_at && (now as int) - (e.captured_at as int) < 2 * (
        ttl as int) {
            pre.push(e)
        } else {
            pre
        }
    }
}

/// What a read under `key` at `now` yields from entry sequence `s`.
pub open spec fn spec_get_entries<V>(s: Seq<CacheEntry<V>>, ttl: u64, key: Seq<u8>, now: u64) -> Option<V> {
    match spec_lookup(s, key) {
        Some(e) => if fresh_at(e.captured_at, now, ttl) {
            Some(e.value)
        } else {
            None
        },
        None => None,
    }
}

/// The entry sequence that a write leaves behind: the swept survivors
/// plus, for a positive TTL, the new entry at the back.
pub open spec fn spec_after_set<V>(
    s: Seq<CacheEntry<V>>,
    key: Vec<u8>,
    value: V,
    now: u64,
    ttl: u64,
) -> Seq<CacheEntry<V>> {
    spec_swept(s, key@, now, ttl) + if ttl > 0 {
        seq![(CacheEntry { key, value, captured_at: now })]
    } else {
        Seq::<CacheEntry<V>>::empty()
    }
}

impl<V> DataCache<V> {
    pub open spec fn inv(self) -> bool {
        self.ttl <= u64::MAX / 2
    }

    /// What a read of this cache yields.
    pub open spec fn spec_get(self, key: Seq<u8>, now: u64) -> Option<V> {
        spec_get_entries(self.entries@, self.ttl, key, now)
    }

    /// An empty cache with the given TTL in seconds.
    pub fn new(ttl: u64) -> (r: Self)
        requires
            ttl <= u64::MAX / 2,
        ensures
            r.inv(),
            r.ttl == ttl,
            r.entries@.len() == 0,
    {
        DataCache { entries: Vec::new(), ttl }
    }

    /// The cached value under `key`, provided it is younger than the TTL.
    pub fn get(&self, key: &[u8], now: u64) -> (r: Option<&V>)
        ensures
            match r {
                Some(v) => self.spec_get(key@, now) == Some(*v),
                None => self.spec_get(key@, now) is None,
            },
    {
        let mut k: usize = 0;
        proof {
            assert(self.entries@.skip(0) =~= self.entries@);
        }
        while k < self.entries.len()
            invariant
                k <= self.entries@.len(),
                spec_lookup(self.entries@, key@) == spec_lookup(
                    self.entries@.skip(k as int),
                    key@,
                ),
                forall|i: int| 0 <= i < k ==> #[trigger] self.entries@[i].key@ != key@,
            decreases self.entries@.len() - k,
        {
            let e = &self.entries[k];
            if eq_bytes(e.key.as_slice(), key) {
                if now >= e.captured_at && now - e.captured_at < self.ttl {
                    return Some(&e.value);
                } else {
                    return None;
                }
            }
            proof {
                assert(self.entries@.skip(k as int).skip(1) =~= self.entries@.skip(k + 1));
            }
            k = k + 1;
        }
        None
    }

    /// Store `value` under `key` at time `now`, then sweep out every
    /// entry whose age exceeds twice the TTL. Afterwards no entry older
    /// than twice the TTL remains in the cache.
    pub fn set(&mut self, key: Vec<u8>, value: V, now: u64)
        requires
            old(self).inv(),
        ensures
            final(self).inv(),
            final(self).ttl == old(self).ttl,
            final(self).entries@ == spec_after_set(
                old(self).entries@,
                key,
                value,
                now,
                old(self).ttl,
            ),
            forall|i: int|
                0 <= i < final(self).entries@.len() ==> {
                    let e = #[trigger] final(self).entries@[i];
                    now >= e.captured_at && (now as int) - (e.captured_at as int) < 2 * (
                    old(self).ttl as int)
                },
    {
        let ghost orig = self.entries@;
        let ghost ttl_g = self.ttl;
        let mut pending: Vec<CacheEntry<V>> = Vec::new();
        core::mem::swap(&mut self.entries, &mut pending);
        let twice: u64 = self.ttl * 2;
        while pending.len() > 0
            invariant
                self.ttl == ttl_g,
                ttl_g <= u64::MAX / 2,
                twice == 2 * ttl_g,
                orig.skip(orig.len() - pending@.len()) =~= pending@,
                pending@.len() <= orig.len(),
                self.entries@ == spec_swept(
                    orig.take(orig.len() - pending@.len()),
                    key@,
                    now,
                    ttl_g,
                ),
            decreases pending@.len(),
        {
            let ghost k = orig.len() - pending@.len();
            let e = pending.remove(0);
            proof {
                assert(e == orig[k]);
                assert(orig.take(k + 1).drop_last() =~= orig.take(k));
                assert(orig.take(k + 1).last() == orig[k]);
                assert(orig.skip(k).skip(1) =~= orig.skip(k + 1));
            }
            let keep = !eq_bytes(e.key.as_slice(), key.as_slice()) && now >= e.captured_at && now
                - e.captured_at < twice;
            if keep {
                self.entries.push(e);
            }
        }
        proof {
            assert(orig.take(orig.len() as int) =~= orig);
        }
        if self.ttl > 0 {
            self.entries.push(CacheEntry { key, value, captured_at: now });
        }
        proof {
            lemma_swept_young(orig, key@, now, ttl_g);
            if ttl_g > 0 {
                assert(self.entries@ =~= spec_after_set(orig, key, value, now, ttl_g));
            } else {
                assert(self.entries@ =~= spec_after_set(orig, key, value, now, ttl_g));
            }
        }
    }
}

/// Every entry that survives a sweep is younger than twice the TTL.
pub proof fn lemma_swept_young<V>(s: Seq<CacheEntry<V>>, key: Seq<u8>, now: u64, ttl: u64)
    ensures
        forall|i: int|
            0 <= i < spec_swept(s, key, now, ttl).len() ==> {
                let e = #[trigger] spec_swept(s, key, now, ttl)[i];
                &&& e.key@ != key
                &&& now >= e.captured_at
                &&& (now as int) - (e.captured_at as int) < 2 * (ttl as int)
            },
    decreases s.len(),
{
    if s.len() > 0 {
        lemma_swept_young(s.drop_last(), key, now, ttl);
        let pre = spec_swept(s.drop_last(), key, now, ttl);
        let e = s.last();
        if e.key@ != key && now >= e.captured_at && (now as int) - (e.captured_at as int) < 2 * (
        ttl as int) {
            assert(spec_swept(s, key, now, ttl) == pre.push(e));
            assert forall|i: int| 0 <= i < pre.push(e).len() implies {
                let x = #[trigger] pre.push(e)[i];
                &&& x.key@ != key
                &&& now >= x.captured_at
                &&& (now as int) - (x.captured_at as int) < 2 * (ttl as int)
            } by {
                if i < pre.len() {
                    assert(pre.push(e)[i] == pre[i]);
                } else {
                    assert(pre.push(e)[i] == e);
                }
            }
        }
    }
}

/// A lookup misses exactly when no entry carries the key.
proof fn lemma_lookup_none<V>(s: Seq<CacheEntry<V>>, key: Seq<u8>)
    requires
        forall|i: int| 0 <= i < s.len() ==> #[trigger] s[i].key@ != key,
    ensures
        spec_lookup(s, key) is None,
    decreases s.len(),
{
    if s.len() > 0 {
        assert(forall|i: int| 0 <= i < s.skip(1).len() ==> #[trigger] s.skip(1)[i].key@ != key);
        lemma_lookup_none(s.skip(1), key);
    }
}

/// Appending an entry behind key-free entries makes it the lookup result.
proof fn lemma_lookup_append<V>(s: Seq<CacheEntry<V>>, e: CacheEntry<V>, key: Seq<u8>)
    requires
        forall|i: int| 0 <= i < s.len() ==> #[trigger] s[i].key@ != key,
        e.key@ == key,
    ensures
        spec_lookup(s + seq![e], key) == Some(e),
    decreases s.len(),
{
    if s.len() == 0 {
        assert((s + seq![e])[0] == e);
    } else {
        assert((s + seq![e])[0] == s[0]);
        assert((s + seq![e]).skip(1) =~= s.skip(1) + seq![e]);
        assert(forall|i: int| 0 <= i < s.skip(1).len() ==> #[trigger] s.skip(1)[i].key@ != key);
        lemma_lookup_append(s.skip(1), e, key);
    }
}

/// The cache respects its TTL: a value stored under `key` at time `t`
/// is returned by a read at any time `q` in `[t, t + ttl)`, and is not
/// returned at `t + ttl` or later (until overwritten).
pub proof fn lemma_cache_ttl_window<V>(
    s: Seq<CacheEntry<V>>,
    key: Vec<u8>,
    value: V,
    t: u64,
    q: u64,
    ttl: u64,
)
    requires
        t <= q,
    ensures
        (q as int) - (t as int) < ttl as int ==> spec_get_entries(
            spec_after_set(s, key, value, t, ttl),
            ttl,
            key@,
            q,
        ) == Some(value),
        (q as int) - (t as int) >= ttl as int ==> spec_get_entries(
            spec_after_set(s, key, value, t, ttl),
            ttl,
            key@,
            q,
        ) is None,
{
    let swept = spec_swept(s, key@, t, ttl);
    lemma_swept_young(s, key@, t, ttl);
    if ttl > 0 {
        let e = CacheEntry { key, value, captured_at: t };
        lemma_lookup_append(swept, e, key@);
        assert(spec_after_set(s, key, value, t, ttl) == swept + seq![e]);
    } else {
        assert(spec_after_set(s, key, value, t, ttl) =~= swept);
        lemma_lookup_none(swept, key@);
    }
}

} // verus!
