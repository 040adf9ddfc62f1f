//! The deduplication cache, kept in an `lru::LruCache`.

use lru::LruCache;
use std::num::NonZeroUsize;
use vstd::prelude::*;

verus! {

#[verifier::external_type_specification]
#[verifier::external_body]
#[verifier::reject_recursive_types(K)]
#[verifier::reject_recursive_types(V)]
#[verifier::reject_recursive_types(S)]
pub struct ExLruCache<K, V, S>(LruCache<K, V, S>);

#[verifier::external_type_specification]
#[verifier::external_body]
pub struct ExDefaultHasher(lru::DefaultHasher);

/// A deduplication key: incident id and last-change time.
pub type KeyView = (Seq<char>, i64);

/// The keys held by an LRU cache, least recently used first.
pub uninterp spec fn lru_keys(c: LruCache<(String, i64), ()>) -> Seq<KeyView>;

/// The capacity an LRU cache was made with.
pub uninterp spec fn lru_capacity(c: LruCache<(String, i64), ()>) -> nat;

/// Relies on `lru::LruCache::new`: an empty cache of the given capacity.
#[verifier::external_body]
fn lru_new(cap: usize) -> (r: LruCache<(String, i64), ()>)
    requires
        cap > 0,
    ensures
        lru_keys(r) == Seq::<KeyView>::empty(),
        lru_capacity(r) == cap,
{
    LruCache::new(NonZeroUsize::new(cap).unwrap())
}

/// The keys after `put(k)` on a cache holding `keys` with capacity `cap`:
/// a present key moves to the most recent end; a new key is appended, after
/// the least recently used one is evicted when the cache is full.
pub open spec fn keys_after_put(keys: Seq<KeyView>, cap: nat, k: KeyView) -> Seq<KeyView> {
    if keys.contains(k) {
        keys.remove(keys.index_of(k)).push(k)
    } else if keys.len() == cap {
        keys.drop_first().push(k)
    } else {
        keys.push(k)
    }
}

/// Relies on `lru::LruCache::contains`: membership, without touching the
/// recency order.
#[verifier::external_body]
fn lru_contains(c: &LruCache<(String, i64), ()>, k: &(String, i64)) -> (r: bool)
    ensures
        r == lru_keys(*c).contains((k.0@, k.1)),
{
    c.contains(k)
}

/// Relies on `lru::LruCache::put`: a present key becomes the most recent; a
/// new key evicts the least recent one first when the cache is full.
#[verifier::external_body]
fn lru_put(c: &mut LruCache<(String, i64), ()>, k: (String, i64))
    ensures
        lru_capacity(*final(c)) == lru_capacity(*old(c)),
        lru_keys(*final(c)) == keys_after_put(lru_keys(*old(c)), lru_capacity(*old(c)), (k.0@, k.1)),
{
    let _ = c.put(k, ());
}

/// Fixed-capacity set of recently seen deduplication keys; the least
/// recently inserted key is evicted first.
pub struct DedupCache {
    cache: LruCache<(String, i64), ()>,
}

impl DedupCache {
    /// The keys held, least recently inserted first.
    pub closed spec fn spec_keys(&self) -> Seq<KeyView> {
        lru_keys(self.cache)
    }

    pub closed spec fn spec_capacity(&self) -> nat {
        lru_capacity(self.cache)
    }

    /// At least one slot, never more keys than slots, each key once.
    pub open spec fn wf(&self) -> bool {
        &&& self.spec_capacity() >= 1
        &&& self.spec_keys().len() <= self.spec_capacity()
        &&& self.spec_keys().no_duplicates()
    }

    pub fn new(capacity: usize) -> (r: DedupCache)
        requires
            capacity >= 1,
        ensures
            r.wf(),
            r.spec_capacity() == capacity,
            r.spec_keys() == Seq::<KeyView>::empty(),
    {
        DedupCache { cache: lru_new(capacity) }
    }

    pub fn contains(&self, event_id: &String, last_change: i64) -> (r: bool)
        ensures
            r == self.spec_keys().contains((event_id@, last_change)),
    {
        let k = (event_id.clone(), last_change);
        lru_contains(&self.cache, &k)
    }

    pub fn insert(&mut self, event_id: String, last_change: i64)
        requires
            old(self).wf(),
        ensures
            final(self).wf(),
            final(self).spec_capacity() == old(self).spec_capacity(),
            final(self).spec_keys() == keys_after_put(
                old(self).spec_keys(),
                old(self).spec_capacity(),
                (event_id@, last_change),
            ),
    {
        let ghost k = (event_id@, last_change);
        let ghost keys = self.spec_keys();
        lru_put(&mut self.cache, (event_id, last_change));
        proof {
            lemma_put_keeps_wf(keys, self.spec_capacity(), k);
        }
    }
}

pub(crate) proof fn lemma_put_keeps_wf(keys: Seq<KeyView>, cap: nat, k: KeyView)
    requires
        cap >= 1,
        keys.len() <= cap,
        keys.no_duplicates(),
    ensures
        keys_after_put(keys, cap, k).len() <= cap,
        keys_after_put(keys, cap, k).no_duplicates(),
{
    if keys.contains(k) {
        let i = keys.index_of(k);
        let rest = keys.remove(i);
        assert forall|a: int| 0 <= a < rest.len() implies rest[a] != k by {
            if a < i {
                assert(rest[a] == keys[a]);
            } else {
                assert(rest[a] == keys[a + 1]);
            }
        }
        assert(rest.push(k).no_duplicates()) by {
            assert forall|a: int, b: int| 0 <= a < b < rest.push(k).len() implies rest.push(k)[a] != rest.push(k)[b] by {
                if b < rest.len() {
                    let ia = if a < i { a } else { a + 1 };
                    let ib = if b < i { b } else { b + 1 };
                    assert(rest[a] == keys[ia]);
                    assert(rest[b] == keys[ib]);
                }
            }
        }
    } else if keys.len() == cap {
        let rest = keys.drop_first();
        assert(rest.push(k).no_duplicates()) by {
            assert forall|a: int, b: int| 0 <= a < b < rest.push(k).len() implies rest.push(k)[a] != rest.push(k)[b] by {
                if b < rest.len() {
                    assert(rest[a] == keys[a + 1]);
                    assert(rest[b] == keys[b + 1]);
                } else {
                    assert(rest[a] == keys[a + 1]);
                }
            }
        }
    } else {
        assert(keys.push(k).no_duplicates()) by {
            assert forall|a: int, b: int| 0 <= a < b < keys.push(k).len() implies keys.push(k)[a] != keys.push(k)[b] by {
                if b == keys.len() {
                    assert(keys.push(k)[a] == keys[a]);
                }
            }
        }
    }
}

} // verus!
