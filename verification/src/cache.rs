//! The embedding cache: exact input text to cached value, with a
//! time-to-live. Lookups filter by age; a full cache sheds its stale
//! entries on the next write. Times are seconds from a monotonic
//! clock the caller reads.

use vstd::prelude::*;

verus! {

/// Cached entries above which a write first evicts the stale ones.
pub const CACHE_EVICTION_THRESHOLD: usize = 1000;

/// Cache lifetime in seconds when caching is on.
pub const CACHE_TTL_SECS: u64 = 3600;

/// One cached value and when it was computed.
pub struct CacheEntry<V> {
    pub key: String,
    pub value: V,
    pub created_at_secs: u64,
}

/// The first entry with this key.
pub open spec fn cache_lookup<V>(entries: Seq<CacheEntry<V>>, key: Seq<char>) -> Option<
    CacheEntry<V>,
>
    decreases entries.len(),
{
    if entries.len() == 0 {
        None
    } else if entries.first().key@ == key {
        Some(entries.first())
    } else {
        cache_lookup(entries.drop_first(), key)
    }
}

/// An entry's age at a given instant; a clock running backwards reads
/// as age zero.
pub open spec fn spec_age(now_secs: u64, created_at_secs: u64) -> int {
    if now_secs >= created_at_secs {
        now_secs - created_at_secs
    } else {
        0
    }
}

/// A text-keyed cache whose entries expire.
pub struct TtlCache<V> {
    pub entries: Vec<CacheEntry<V>>,
    pub ttl_secs: u64,
}

impl<V> TtlCache<V> {
    /// Keys are unique, as a map's are.
    pub open spec fn wf(self) -> bool {
        forall|i: int, j: int|
            0 <= i < j < self.entries@.len() ==> (#[trigger] self.entries@[i]).key@ != (
            #[trigger] self.entries@[j]).key@
    }

    /// An empty cache with this lifetime. A lifetime of zero disables
    /// caching, as every entry is stale at once.
    pub fn new(ttl_secs: u64) -> (r: TtlCache<V>)
        ensures
            r.wf(),
            r.entries@.len() == 0,
            r.ttl_secs == ttl_secs,
    {
        TtlCache { entries: Vec::new(), ttl_secs }
    }

    /// Index of the entry with this key, if one exists.
    #[verifier::loop_isolation(false)]
    fn find_entry(&self, key: &String) -> (r: Option<usize>)
        ensures
            match r {
                Some(i) => i < self.entries@.len() && self.entries@[i as int].key@ == key@
                    && cache_lookup(self.entries@, key@) == Some(self.entries@[i as int]),
                None => cache_lookup(self.entries@, key@) is None && forall|j: int|
                    0 <= j < self.entries@.len() ==> (#[trigger] self.entries@[j]).key@ != key@,
            },
    {
        let rows = &self.entries;
        let mut i: usize = 0;
        proof {
            assert(rows@.skip(0) =~= rows@);
        }
        while i < rows.len()
            invariant
                i <= rows@.len(),
                cache_lookup(rows@, key@) == cache_lookup(rows@.skip(i as int), key@),
                forall|j: int| 0 <= j < i ==> (#[trigger] rows@[j]).key@ != key@,
            decreases rows@.len() - i,
        {
            proof {
                assert(rows@.skip(i as int).first() == rows@[i as int]);
                assert(rows@.skip(i as int).drop_first() =~= rows@.skip(i + 1));
            }
            if rows[i].key == *key {
                proof {
                    assert(cache_lookup(rows@.skip(i as int), key@) == Some(rows@[i as int]));
                }
                return Some(i);
            }
            i = i + 1;
        }
        proof {
            assert(rows@.skip(i as int) =~= Seq::<CacheEntry<V>>::empty());
        }
        None
    }

    /// Looks a text up: its value comes back only while the entry is
    /// younger than the lifetime.
    pub fn get(&self, key: &String, now_secs: u64) -> (r: Option<&V>)
        ensures
            match cache_lookup(self.entries@, key@) {
                Some(e) => {
                    if spec_age(now_secs, e.created_at_secs) < self.ttl_secs {
                        r is Some && *r->0 == e.value
                    } else {
                        r is None
                    }
                },
                None => r is None,
            },
    {
        match self.find_entry(key) {
            Some(i) => {
                let entry = &self.entries[i];
                let age = if now_secs >= entry.created_at_secs {
                    now_secs - entry.created_at_secs
                } else {
                    0
                };
                if age < self.ttl_secs {
                    Some(&entry.value)
                } else {
                    None
                }
            },
            None => None,
        }
    }

    /// Caches a value for a text, stamped now. An entry under the same
    /// key is replaced; when the cache has grown past its threshold,
    /// stale entries are dropped first. Every other key keeps its
    /// entry, except the stale ones an eviction dropped.
    pub fn insert(&mut self, key: &String, value: V, now_secs: u64)
        requires
            old(self).wf(),
        ensures
            final(self).wf(),
            final(self).ttl_secs == old(self).ttl_secs,
            match cache_lookup(final(self).entries@, key@) {
                Some(e) => e.key@ == key@ && e.value == value && e.created_at_secs == now_secs,
                None => false,
            },
            forall|k2: Seq<char>|
                k2 != key@ ==> #[trigger] cache_lookup(final(self).entries@, k2) == (
                if old(self).entries@.len() <= CACHE_EVICTION_THRESHOLD {
                    cache_lookup(old(self).entries@, k2)
                } else {
                    match cache_lookup(old(self).entries@, k2) {
                        Some(e) => if spec_age(now_secs, e.created_at_secs) < old(
                            self,
                        ).ttl_secs {
                            Some(e)
                        } else {
                            None
                        },
                        None => None::<CacheEntry<V>>,
                    }
                }),
            final(self).entries@.len() <= old(self).entries@.len() + 1,
    {
        if self.entries.len() > CACHE_EVICTION_THRESHOLD {
            self.evict_stale(now_secs);
        }
        let ghost base = self.entries@;
        match self.find_entry(key) {
            Some(i) => {
                let entry = CacheEntry { key: key.clone(), value, created_at_secs: now_secs };
                self.entries.set(i, entry);
                proof {
                    lemma_cache_lookup_update::<V>(base, self.entries@, i as int, key@);
                    assert forall|a: int, b: int|
                        0 <= a < b < self.entries@.len() implies (
                        #[trigger] self.entries@[a]).key@ != (
                        #[trigger] self.entries@[b]).key@ by {
                        assert(self.entries@[a].key@ == base[a].key@);
                        assert(self.entries@[b].key@ == base[b].key@);
                    }
                    assert forall|k2: Seq<char>| k2 != key@ implies #[trigger] cache_lookup(
                        self.entries@,
                        k2,
                    ) == cache_lookup(base, k2) by {
                        lemma_cache_lookup_update_other::<V>(base, self.entries@, i as int, k2);
                    }
                }
            },
            None => {
                let entry = CacheEntry { key: key.clone(), value, created_at_secs: now_secs };
                self.entries.push(entry);
                proof {
                    lemma_cache_lookup_push_new::<V>(base, self.entries@.last(), key@);
                    assert(self.entries@.drop_last() =~= base);
                    assert forall|k2: Seq<char>| k2 != key@ implies #[trigger] cache_lookup(
                        self.entries@,
                        k2,
                    ) == cache_lookup(base, k2) by {
                        lemma_cache_lookup_push_other::<V>(base, self.entries@.last(), k2);
                    }
                }
            },
        }
        proof {
            if old(self).entries@.len() > CACHE_EVICTION_THRESHOLD {
                assert forall|k2: Seq<char>| k2 != key@ implies #[trigger] cache_lookup(
                    base,
                    k2,
                ) == (match cache_lookup(old(self).entries@, k2) {
                    Some(e) => if spec_age(now_secs, e.created_at_secs) < old(self).ttl_secs {
                        Some(e)
                    } else {
                        None
                    },
                    None => None::<CacheEntry<V>>,
                }) by {
                    lemma_fresh_lookup::<V>(
                        old(self).entries@,
                        now_secs,
                        old(self).ttl_secs,
                        k2,
                    );
                }
            }
        }
    }

    /// Drops every stale entry; fresh ones stay, each once, in order.
    #[verifier::loop_isolation(false)]
    fn evict_stale(&mut self, now_secs: u64)
        requires
            old(self).wf(),
        ensures
            final(self).wf(),
            final(self).ttl_secs == old(self).ttl_secs,
            final(self).entries@.len() <= old(self).entries@.len(),
            final(self).entries@ == fresh_entries(
                old(self).entries@,
                now_secs,
                old(self).ttl_secs,
            ),
    {
        let ghost orig = self.entries@;
        let mut kept: Vec<CacheEntry<V>> = Vec::new();
        proof {
            assert(orig.skip(0) =~= orig);
            assert(kept@ + fresh_entries(orig.skip(0), now_secs, self.ttl_secs) =~= fresh_entries(
                orig,
                now_secs,
                self.ttl_secs,
            ));
        }
        while self.entries.len() > 0
            invariant
                self.entries@.len() <= orig.len(),
                self.entries@ == orig.skip(orig.len() - self.entries@.len()),
                kept@.len() + self.entries@.len() <= orig.len(),
                self.ttl_secs == old(self).ttl_secs,
                fresh_entries(orig, now_secs, self.ttl_secs) == kept@ + fresh_entries(
                    self.entries@,
                    now_secs,
                    self.ttl_secs,
                ),
                forall|a: int, b: int|
                    0 <= a < b < kept@.len() ==> (#[trigger] kept@[a]).key@ != (
                    #[trigger] kept@[b]).key@,
                forall|k: int, j2: int|
                    0 <= k < kept@.len() && 0 <= j2 < self.entries@.len() ==> (
                    #[trigger] kept@[k]).key@ != (#[trigger] self.entries@[j2]).key@,
            decreases self.entries@.len(),
        {
            let ghost before = self.entries@;
            let ghost kept_before = kept@;
            let entry = self.entries.remove(0);
            proof {
                assert(entry == before.first());
                assert(self.entries@ =~= before.drop_first());
                let k = orig.len() - before.len();
                assert(before == orig.skip(k));
                assert(self.entries@ =~= orig.skip(k + 1));
            }
            let age = if now_secs >= entry.created_at_secs {
                now_secs - entry.created_at_secs
            } else {
                0
            };
            if age < self.ttl_secs {
                kept.push(entry);
                proof {
                    assert(fresh_entries(before, now_secs, self.ttl_secs) == seq![entry]
                        + fresh_entries(self.entries@, now_secs, self.ttl_secs));
                    assert(kept_before + (seq![entry] + fresh_entries(
                        self.entries@,
                        now_secs,
                        self.ttl_secs,
                    )) =~= kept@ + fresh_entries(self.entries@, now_secs, self.ttl_secs));
                }
            } else {
                proof {
                    assert(fresh_entries(before, now_secs, self.ttl_secs) == fresh_entries(
                        self.entries@,
                        now_secs,
                        self.ttl_secs,
                    ));
                }
            }
        }
        proof {
            assert(fresh_entries(self.entries@, now_secs, self.ttl_secs) =~= Seq::<
                CacheEntry<V>,
            >::empty());
            assert(kept@ + fresh_entries(self.entries@, now_secs, self.ttl_secs) =~= kept@);
        }
        self.entries = kept;
    }
}

/// The entries younger than the lifetime, in their stored order.
pub open spec fn fresh_entries<V>(
    entries: Seq<CacheEntry<V>>,
    now_secs: u64,
    ttl_secs: u64,
) -> Seq<CacheEntry<V>>
    decreases entries.len(),
{
    if entries.len() == 0 {
        Seq::empty()
    } else {
        let rest = fresh_entries(entries.drop_first(), now_secs, ttl_secs);
        if spec_age(now_secs, entries.first().created_at_secs) < ttl_secs {
            seq![entries.first()] + rest
        } else {
            rest
        }
    }
}

/// A key that no entry holds is found in the fresh entries of none.
proof fn lemma_fresh_lookup_absent<V>(
    entries: Seq<CacheEntry<V>>,
    now_secs: u64,
    ttl_secs: u64,
    key: Seq<char>,
)
    requires
        forall|j: int| 0 <= j < entries.len() ==> (#[trigger] entries[j]).key@ != key,
    ensures
        cache_lookup(fresh_entries(entries, now_secs, ttl_secs), key) is None,
    decreases entries.len(),
{
    if entries.len() > 0 {
        assert forall|j: int| 0 <= j < entries.drop_first().len() implies (
        #[trigger] entries.drop_first()[j]).key@ != key by {
            assert(entries.drop_first()[j] == entries[j + 1]);
        }
        lemma_fresh_lookup_absent(entries.drop_first(), now_secs, ttl_secs, key);
        let rest = fresh_entries(entries.drop_first(), now_secs, ttl_secs);
        if spec_age(now_secs, entries.first().created_at_secs) < ttl_secs {
            let f = seq![entries.first()] + rest;
            assert(f.first() == entries.first());
            assert(f.drop_first() =~= rest);
        }
    }
}

/// Dropping the stale entries of a uniquely-keyed list changes a
/// lookup in one way only: a stale hit becomes a miss.
proof fn lemma_fresh_lookup<V>(
    entries: Seq<CacheEntry<V>>,
    now_secs: u64,
    ttl_secs: u64,
    key: Seq<char>,
)
    requires
        forall|a: int, b: int|
            0 <= a < b < entries.len() ==> (#[trigger] entries[a]).key@ != (
            #[trigger] entries[b]).key@,
    ensures
        cache_lookup(fresh_entries(entries, now_secs, ttl_secs), key) == match cache_lookup(
            entries,
            key,
        ) {
            Some(e) => if spec_age(now_secs, e.created_at_secs) < ttl_secs {
                Some(e)
            } else {
                None
            },
            None => None::<CacheEntry<V>>,
        },
    decreases entries.len(),
{
    if entries.len() > 0 {
        let first = entries.first();
        let rest = fresh_entries(entries.drop_first(), now_secs, ttl_secs);
        assert forall|a: int, b: int|
            0 <= a < b < entries.drop_first().len() implies (
            #[trigger] entries.drop_first()[a]).key@ != (
            #[trigger] entries.drop_first()[b]).key@ by {
            assert(entries.drop_first()[a] == entries[a + 1]);
            assert(entries.drop_first()[b] == entries[b + 1]);
        }
        if first.key@ == key {
            if spec_age(now_secs, first.created_at_secs) < ttl_secs {
                let f = seq![first] + rest;
                assert(f.first() == first);
            } else {
                assert forall|j: int| 0 <= j < entries.drop_first().len() implies (
                #[trigger] entries.drop_first()[j]).key@ != key by {
                    assert(entries.drop_first()[j] == entries[j + 1]);
                }
                lemma_fresh_lookup_absent(entries.drop_first(), now_secs, ttl_secs, key);
            }
        } else {
            lemma_fresh_lookup(entries.drop_first(), now_secs, ttl_secs, key);
            if spec_age(now_secs, first.created_at_secs) < ttl_secs {
                let f = seq![first] + rest;
                assert(f.first() == first);
                assert(f.drop_first() =~= rest);
            }
        }
    }
}

/// Pushing an entry under a different key leaves a lookup unchanged.
proof fn lemma_cache_lookup_push_other<V>(
    rows: Seq<CacheEntry<V>>,
    entry: CacheEntry<V>,
    key: Seq<char>,
)
    requires
        entry.key@ != key,
    ensures
        cache_lookup(rows.push(entry), key) == cache_lookup(rows, key),
    decreases rows.len(),
{
    if rows.len() == 0 {
        assert(rows.push(entry).first() == entry);
        assert(rows.push(entry).drop_first() =~= rows);
    } else {
        assert(rows.push(entry).first() == rows.first());
        assert(rows.push(entry).drop_first() =~= rows.drop_first().push(entry));
        lemma_cache_lookup_push_other(rows.drop_first(), entry, key);
    }
}

/// Replacing the entry at an index whose key is another leaves a
/// lookup of this key unchanged.
proof fn lemma_cache_lookup_update_other<V>(
    rows: Seq<CacheEntry<V>>,
    updated: Seq<CacheEntry<V>>,
    i: int,
    key: Seq<char>,
)
    requires
        0 <= i < rows.len(),
        updated == rows.update(i, updated[i]),
        rows[i].key@ != key,
        updated[i].key@ != key,
    ensures
        cache_lookup(updated, key) == cache_lookup(rows, key),
    decreases rows.len(),
{
    if i == 0 {
        assert(updated.first() == updated[0]);
        assert(updated.drop_first() =~= rows.drop_first());
    } else {
        assert(updated.first() == rows.first());
        assert(updated.drop_first() =~= rows.drop_first().update(i - 1, updated[i]));
        lemma_cache_lookup_update_other::<V>(rows.drop_first(), updated.drop_first(), i - 1, key);
        assert(updated.drop_first()[i - 1] == updated[i]);
    }
}

/// Replacing the entry at the index of this key makes lookups of the
/// key find the replacement.
proof fn lemma_cache_lookup_update<V>(
    rows: Seq<CacheEntry<V>>,
    updated: Seq<CacheEntry<V>>,
    i: int,
    key: Seq<char>,
)
    requires
        0 <= i < rows.len(),
        updated == rows.update(i, updated[i]),
        updated.len() == rows.len(),
        rows[i].key@ == key,
        updated[i].key@ == key,
        forall|j: int| 0 <= j < i ==> (#[trigger] rows[j]).key@ != key,
    ensures
        cache_lookup(updated, key) == Some(updated[i]),
    decreases rows.len(),
{
    if i == 0 {
        assert(updated.first() == updated[0]);
    } else {
        assert(updated.first() == rows[0]);
        assert(updated.drop_first() =~= rows.drop_first().update(i - 1, updated[i]));
        lemma_cache_lookup_update::<V>(
            rows.drop_first(),
            updated.drop_first(),
            i - 1,
            key,
        );
        assert(updated.drop_first()[i - 1] == updated[i]);
    }
}

/// A lookup that failed finds exactly a newly pushed entry with the
/// key.
proof fn lemma_cache_lookup_push_new<V>(
    rows: Seq<CacheEntry<V>>,
    entry: CacheEntry<V>,
    key: Seq<char>,
)
    requires
        cache_lookup(rows, key) is None,
        entry.key@ == key,
    ensures
        cache_lookup(rows.push(entry), key) == Some(entry),
    decreases rows.len(),
{
    if rows.len() == 0 {
        assert(rows.push(entry).first() == entry);
    } else {
        assert(rows.push(entry).first() == rows.first());
        assert(rows.push(entry).drop_first() =~= rows.drop_first().push(entry));
        lemma_cache_lookup_push_new::<V>(rows.drop_first(), entry, key);
    }
}

} // verus!
