use vstd::prelude::*;
use crate::error::ADBResult;

verus! {

/// A value and the time, in milliseconds, at which it was recorded.
#[derive(Debug, Clone, Copy, PartialEq, Eq)]
pub struct CacheEntry<V> {
    pub value: V,
    pub recorded_at: u64,
}

/// Whether an entry recorded at `recorded_at` is still valid at `now` under
/// `ttl`: its age is below the time to live. An entry stamped in the future
/// has age zero.
pub open spec fn is_fresh(recorded_at: u64, now: u64, ttl: u64) -> bool {
    (if now >= recorded_at {
        now - recorded_at
    } else {
        0
    }) < ttl
}

/// What a lookup of `key` at `now` under `ttl` yields in the cache contents `m`.
pub open spec fn lookup_spec<V>(m: Map<Seq<char>, CacheEntry<V>>, key: Seq<char>, ttl: u64, now: u64) -> Option<V> {
    if m.contains_key(key) && is_fresh(m[key].recorded_at, now, ttl) {
        Some(m[key].value)
    } else {
        None
    }
}

/// A keyed cache whose entries expire a time to live after they were
/// recorded. Expired entries are replaced on the next store for their key;
/// nothing sweeps them in the background. The clock is the caller's: every
/// operation takes the current time in milliseconds.
pub struct TtlCache<V> {
    entries: Vec<(String, CacheEntry<V>)>,
    contents: Ghost<Map<Seq<char>, CacheEntry<V>>>,
}

impl<V: Copy> TtlCache<V> {
    /// The entries of the cache, one per key.
    pub closed spec fn view(&self) -> Map<Seq<char>, CacheEntry<V>> {
        self.contents@
    }

    /// At most one entry per key, and the ghost contents describe the entries.
    pub closed spec fn wf(&self) -> bool {
        &&& forall|i: int, j: int|
            0 <= i < j < self.entries.len() ==> self.entries[i].0@ != self.entries[j].0@
        &&& forall|i: int|
            0 <= i < self.entries.len() ==> #[trigger] self.contents@.contains_key(
                self.entries[i].0@,
            ) && self.contents@[self.entries[i].0@] == self.entries[i].1
        &&& forall|k: Seq<char>|
            #[trigger] self.contents@.contains_key(k) ==> exists|i: int|
                0 <= i < self.entries.len() && self.entries[i].0@ == k
    }

    /// An empty cache.
    pub fn new() -> (c: Self)
        ensures
            c.wf(),
            c.view() == Map::<Seq<char>, CacheEntry<V>>::empty(),
    {
        TtlCache { entries: Vec::new(), contents: Ghost(Map::empty()) }
    }

    /// The number of keys that hold an entry, fresh or not.
    pub fn len(&self) -> (r: usize)
        requires
            self.wf(),
        ensures
            r == self.view().len(),
    {
        proof {
            self.lemma_len();
        }
        self.entries.len()
    }

    proof fn lemma_len(&self)
        requires
            self.wf(),
        ensures
            self.entries.len() == self.contents@.len(),
    {
        let keys = Seq::new(self.entries.len() as nat, |i: int| self.entries[i].0@);
        assert(keys.no_duplicates());
        assert(keys.to_set() =~= self.contents@.dom()) by {
            assert forall|k: Seq<char>| #[trigger] keys.to_set().contains(k)
                <==> self.contents@.dom().contains(k) by {
                if self.contents@.contains_key(k) {
                    let i = choose|i: int| 0 <= i < self.entries.len() && self.entries[i].0@ == k;
                    assert(keys[i] == k);
                }
                if keys.to_set().contains(k) {
                    let i = choose|i: int| 0 <= i < keys.len() && keys[i] == k;
                    assert(self.contents@.contains_key(self.entries[i].0@));
                }
            }
        }
        keys.unique_seq_to_set();
    }

    fn find(&self, key: &String) -> (r: Option<usize>)
        requires
            self.wf(),
        ensures
            r is Some ==> r->0 < self.entries.len() && self.entries[r->0 as int].0@ == key@,
            r is None ==> !self.view().contains_key(key@),
    {
        let mut i: usize = 0;
        while i < self.entries.len()
            invariant
                self.wf(),
                i <= self.entries.len(),
                forall|j: int| 0 <= j < i ==> self.entries[j].0@ != key@,
            decreases self.entries.len() - i,
        {
            if self.entries[i].0 == *key {
                return Some(i);
            }
            i = i + 1;
        }
        None
    }

    /// The value stored under `key`, if it is still fresh at `now_ms`.
    pub fn lookup(&self, key: &str, ttl_ms: u64, now_ms: u64) -> (r: Option<V>)
        requires
            self.wf(),
        ensures
            r == lookup_spec(self.view(), key@, ttl_ms, now_ms),
    {
        let k = key.to_owned();
        match self.find(&k) {
            Some(i) => {
                let entry = self.entries[i].1;
                if fresh(entry.recorded_at, now_ms, ttl_ms) {
                    Some(entry.value)
                } else {
                    None
                }
            },
            None => None,
        }
    }

    /// Records `value` under `key` at `now_ms`, replacing what was there.
    pub fn store(&mut self, key: &str, value: V, now_ms: u64)
        requires
            old(self).wf(),
        ensures
            final(self).wf(),
            final(self).view() == old(self).view().insert(
                key@,
                CacheEntry { value, recorded_at: now_ms },
            ),
    {
        let k = key.to_owned();
        let entry = CacheEntry { value, recorded_at: now_ms };
        let ghost old_entries = self.entries@;
        let ghost pos: int;
        match self.find(&k) {
            Some(i) => {
                self.entries.set(i, (k, entry));
                proof {
                    pos = i as int;
                }
            },
            None => {
                self.entries.push((k, entry));
                proof {
                    pos = old_entries.len() as int;
                }
            },
        }
        self.contents = Ghost(self.contents@.insert(key@, entry));
        proof {
            assert(self.entries[pos].0@ == key@);
            assert forall|k2: Seq<char>| #[trigger] self.contents@.contains_key(k2) implies exists|
                i: int,
            | 0 <= i < self.entries.len() && self.entries[i].0@ == k2 by {
                if k2 != key@ {
                    let i = choose|i: int|
                        0 <= i < old(self).entries.len() && old(self).entries[i].0@ == k2;
                    assert(self.entries[i].0@ == k2);
                } else {
                    assert(self.entries[pos].0@ == k2);
                }
            }
        }
    }

    /// The value under `key` when it is fresh at `now_ms`; otherwise the result
    /// of `compute`, which is stored stamped `now_ms` when it succeeds and not
    /// stored when it fails.
    pub fn get_or_compute<F>(
        &mut self,
        key: &str,
        ttl_ms: u64,
        now_ms: u64,
        compute: F,
    ) -> (r: ADBResult<V>)
        where
            F: FnOnce() -> ADBResult<V>,
        requires
            old(self).wf(),
            compute.requires(()),
        ensures
            final(self).wf(),
            lookup_spec(old(self).view(), key@, ttl_ms, now_ms) is Some ==> r == Ok::<
                V,
                crate::error::ADBError,
            >(lookup_spec(old(self).view(), key@, ttl_ms, now_ms)->0) && final(self).view()
                == old(self).view(),
            lookup_spec(old(self).view(), key@, ttl_ms, now_ms) is None ==> compute.ensures(
                (),
                r,
            ) && (match r {
                Ok(v) => final(self).view() == old(self).view().insert(
                    key@,
                    CacheEntry { value: v, recorded_at: now_ms },
                ),
                Err(_) => final(self).view() == old(self).view(),
            }),
    {
        match self.lookup(key, ttl_ms, now_ms) {
            Some(v) => Ok(v),
            None => {
                let result = compute();
                match result {
                    Ok(v) => {
                        self.store(key, v, now_ms);
                        Ok(v)
                    },
                    Err(e) => Err(e),
                }
            },
        }
    }
}

/// Whether an entry recorded at `recorded_at` is still valid at `now_ms`.
pub fn fresh(recorded_at: u64, now_ms: u64, ttl_ms: u64) -> (r: bool)
    ensures
        r == is_fresh(recorded_at, now_ms, ttl_ms),
{
    let age = if now_ms >= recorded_at {
        now_ms - recorded_at
    } else {
        0
    };
    age < ttl_ms
}

/// A value stored at `t0` is served again by a lookup at `t1` exactly while
/// it is fresh: before `ttl` has elapsed. Once it has, the lookup misses and
/// the value is computed anew.
pub proof fn law_entry_served_until_expiry<V>(
    m: Map<Seq<char>, CacheEntry<V>>,
    key: Seq<char>,
    value: V,
    ttl: u64,
    t0: u64,
    t1: u64,
)
    requires
        t0 <= t1,
    ensures
        t1 - t0 < ttl ==> lookup_spec(m.insert(key, CacheEntry { value, recorded_at: t0 }), key, ttl, t1)
            == Some(value),
        t1 - t0 >= ttl ==> lookup_spec(m.insert(key, CacheEntry { value, recorded_at: t0 }), key, ttl, t1)
            is None,
{
}

/// Storing under one key leaves what every other key yields unchanged.
pub proof fn law_store_isolated<V>(
    m: Map<Seq<char>, CacheEntry<V>>,
    key: Seq<char>,
    other: Seq<char>,
    e: CacheEntry<V>,
    ttl: u64,
    now: u64,
)
    requires
        key != other,
    ensures
        lookup_spec(m.insert(key, e), other, ttl, now) == lookup_spec(m, other, ttl, now),
{
}

} // verus!
