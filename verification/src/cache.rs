//! Cache-aside store for ranked results.
//!
//! Entries are keyed by the request fingerprint and carry an absolute
//! expiry instant; eviction is by TTL only, with no invalidation hook from
//! data changes (acceptable only while the TTL is short relative to the
//! ingestion cadence). Time is passed in explicitly, so every statement
//! about expiry is exact: an entry set at `now` with TTL `ttl` is returned
//! by `get` at every instant before `now + ttl` and at none from then on.

use vstd::prelude::*;

verus! {

/// One cached result: fingerprint key, serialized payload, absolute expiry.
/// Never mutated in place; `set_ex` replaces the whole entry.
pub struct CacheEntry {
    pub key: String,
    pub payload: String,
    pub expires_at: u64,
}

/// The first entry stored under `key`, expired or not.
pub open spec fn spec_find(s: Seq<CacheEntry>, key: Seq<char>) -> Option<CacheEntry>
    decreases s.len(),
{
    if s.len() == 0 {
        None
    } else if s[0].key@ == key {
        Some(s[0])
    } else {
        spec_find(s.drop_first(), key)
    }
}

/// What a lookup under `key` at instant `now` yields: the stored payload
/// while the entry is live, nothing once it has expired or was never set.
pub open spec fn spec_get(s: Seq<CacheEntry>, key: Seq<char>, now: u64) -> Option<Seq<char>> {
    match spec_find(s, key) {
        Some(e) => if now < e.expires_at {
            Some(e.payload@)
        } else {
            None
        },
        None => None,
    }
}

proof fn lemma_spec_find_first(s: Seq<CacheEntry>, key: Seq<char>, i: int)
    requires
        0 <= i < s.len(),
        s[i].key@ == key,
        forall|k: int| 0 <= k < i ==> #[trigger] s[k].key@ != key,
    ensures
        spec_find(s, key) == Some(s[i]),
    decreases i,
{
    if i > 0 {
        let rest = s.drop_first();
        assert forall|k: int| 0 <= k < i - 1 implies #[trigger] rest[k].key@ != key by {
            assert(rest[k] == s[k + 1]);
        }
        lemma_spec_find_first(rest, key, i - 1);
    }
}

proof fn lemma_spec_find_none(s: Seq<CacheEntry>, key: Seq<char>)
    requires
        forall|k: int| 0 <= k < s.len() ==> #[trigger] s[k].key@ != key,
    ensures
        spec_find(s, key) is None,
    decreases s.len(),
{
    if s.len() > 0 {
        let rest = s.drop_first();
        assert forall|k: int| 0 <= k < rest.len() implies #[trigger] rest[k].key@ != key by {
            assert(rest[k] == s[k + 1]);
        }
        lemma_spec_find_none(rest, key);
    }
}

/// Cache-aside store: `get` by fingerprint, `set_ex` with TTL. Independent
/// of the candidate store's correctness; the source of truth stays
/// authoritative.
pub struct ResultCache {
    pub entries: Vec<CacheEntry>,
}

impl ResultCache {
    /// At most one entry per fingerprint.
    pub open spec fn wf(self) -> bool {
        forall|i: int, j: int|
            0 <= i < j < self.entries@.len() ==> #[trigger] self.entries@[i].key@
                != #[trigger] self.entries@[j].key@
    }

    /// An empty cache: every lookup misses.
    pub fn new() -> (r: ResultCache)
        ensures
            r.wf(),
            forall|key: Seq<char>, now: u64| #[trigger] spec_get(r.entries@, key, now) is None,
    {
        let r = ResultCache { entries: Vec::new() };
        proof {
            assert forall|key: Seq<char>, now: u64| #[trigger] spec_get(
                r.entries@,
                key,
                now,
            ) is None by {
                lemma_spec_find_none(r.entries@, key);
            }
        }
        r
    }

    fn find_index(&self, key: &String) -> (r: Option<usize>)
        ensures
            match r {
                Some(i) => {
                    &&& i < self.entries@.len()
                    &&& self.entries@[i as int].key@ == key@
                    &&& forall|k: int| 0 <= k < i ==> #[trigger] self.entries@[k].key@ != key@
                },
                None => forall|k: int|
                    0 <= k < self.entries@.len() ==> #[trigger] self.entries@[k].key@ != key@,
            },
    {
        let mut i: usize = 0;
        while i < self.entries.len()
            invariant
                0 <= i <= self.entries@.len(),
                forall|k: int| 0 <= k < i ==> #[trigger] self.entries@[k].key@ != key@,
            decreases self.entries@.len() - i,
        {
            if self.entries[i].key == *key {
                return Some(i);
            }
            i += 1;
        }
        None
    }

    /// Look the fingerprint up at instant `now`: the payload stored under
    /// it while its TTL has not elapsed, nothing otherwise.
    pub fn get(&self, key: &String, now: u64) -> (r: Option<String>)
        ensures
            match r {
                Some(p) => spec_get(self.entries@, key@, now) == Some(p@),
                None => spec_get(self.entries@, key@, now) is None,
            },
    {
        match self.find_index(key) {
            Some(i) => {
                proof {
                    lemma_spec_find_first(self.entries@, key@, i as int);
                }
                if now < self.entries[i].expires_at {
                    Some(self.entries[i].payload.clone())
                } else {
                    None
                }
            },
            None => {
                proof {
                    lemma_spec_find_none(self.entries@, key@);
                }
                None
            },
        }
    }

    /// Store `payload` under `key` with TTL `ttl`, replacing any previous
    /// entry. Round trip: a `get` of `key` at any instant before `now + ttl`
    /// returns exactly `payload`; at any instant from `now + ttl` on it
    /// returns nothing. Every other fingerprint's lookups are untouched.
    pub fn set_ex(&mut self, key: &String, payload: &String, ttl: u64, now: u64)
        requires
            old(self).wf(),
            now + ttl <= u64::MAX,
        ensures
            final(self).wf(),
            forall|t: u64| #[trigger]
                spec_get(final(self).entries@, key@, t) == if t < now + ttl {
                    Some(payload@)
                } else {
                    None::<Seq<char>>
                },
            forall|k: Seq<char>, t: u64|
                k != key@ ==> #[trigger] spec_get(final(self).entries@, k, t) == spec_get(
                    old(self).entries@,
                    k,
                    t,
                ),
    {
        let ghost before = self.entries@;
        match self.find_index(key) {
            Some(i) => {
                self.entries.remove(i);
                proof {
                    let after = self.entries@;
                    assert(after == before.remove(i as int));
                    assert forall|k: int| 0 <= k < after.len() implies #[trigger] after[k].key@
                        != key@ by {
                        if k < i {
                            assert(after[k] == before[k]);
                        } else {
                            assert(after[k] == before[k + 1]);
                            assert(before[i as int].key@ == key@);
                        }
                    }
                    assert forall|a: int, b: int| 0 <= a < b < after.len() implies
                        #[trigger] after[a].key@ != #[trigger] after[b].key@ by {
                        lemma_remove_keeps_distinct(before, i as int, a, b);
                    }
                    assert(before[i as int].key@ == key@ && after == before.remove(i as int));
                }
            },
            None => {
                proof {
                    assert(self.entries@ == before);
                }
            },
        }
        let ghost cleared = self.entries@;
        let entry = CacheEntry { key: key.clone(), payload: payload.clone(), expires_at: now + ttl };
        self.entries.push(entry);
        proof {
            let now_entries = self.entries@;
            assert(now_entries.drop_last() =~= cleared);
            assert(forall|k: int|
                0 <= k < cleared.len() ==> #[trigger] cleared[k].key@ != key@);
            assert forall|t: u64| #[trigger]
                spec_get(now_entries, key@, t) == (if t < now + ttl {
                    Some(payload@)
                } else {
                    None::<Seq<char>>
                }) by {
                lemma_spec_find_first(now_entries, key@, cleared.len() as int);
            }
            assert forall|k: Seq<char>, t: u64| k != key@ implies #[trigger] spec_get(
                now_entries,
                k,
                t,
            ) == spec_get(before, k, t) by {
                lemma_spec_find_skip_other(before, cleared, now_entries, key@, k);
            }
        }
    }
}

/// Removing one entry keeps the remaining keys pairwise distinct.
proof fn lemma_remove_keeps_distinct(before: Seq<CacheEntry>, r: int, i: int, j: int)
    requires
        forall|a: int, b: int|
            0 <= a < b < before.len() ==> #[trigger] before[a].key@ != #[trigger] before[b].key@,
        0 <= r < before.len(),
        0 <= i < j < before.remove(r).len(),
    ensures
        before.remove(r)[i].key@ != before.remove(r)[j].key@,
{
    let after = before.remove(r);
    let a = if i < r {
        i
    } else {
        i + 1
    };
    let b = if j < r {
        j
    } else {
        j + 1
    };
    assert(after[i] == before[a]);
    assert(after[j] == before[b]);
}

/// A lookup under any other key sees neither the removal of `key`'s entry
/// nor the new entry pushed at the back.
proof fn lemma_spec_find_skip_other(
    before: Seq<CacheEntry>,
    cleared: Seq<CacheEntry>,
    now_entries: Seq<CacheEntry>,
    key: Seq<char>,
    k: Seq<char>,
)
    requires
        k != key,
        now_entries.len() > 0,
        now_entries.drop_last() == cleared,
        now_entries.last().key@ == key,
        cleared == before || exists|r: int|
            0 <= r < before.len() && #[trigger] before[r].key@ == key && cleared == before.remove(r),
    ensures
        spec_find(now_entries, k) == spec_find(before, k),
{
    lemma_spec_find_drop_last_other(now_entries, k);
    if cleared != before {
        let r = choose|r: int|
            0 <= r < before.len() && #[trigger] before[r].key@ == key && cleared == before.remove(r);
        lemma_spec_find_remove_other(before, r, k);
    }
}

/// Dropping a last entry whose key differs leaves a lookup unchanged.
proof fn lemma_spec_find_drop_last_other(s: Seq<CacheEntry>, k: Seq<char>)
    requires
        s.len() > 0,
        s.last().key@ != k,
    ensures
        spec_find(s, k) == spec_find(s.drop_last(), k),
    decreases s.len(),
{
    if s.len() == 1 {
    } else if s[0].key@ == k {
    } else {
        assert(s.drop_first().drop_last() =~= s.drop_last().drop_first());
        assert(s.drop_first().last() == s.last());
        lemma_spec_find_drop_last_other(s.drop_first(), k);
    }
}

/// Removing an entry whose key differs leaves a lookup unchanged.
proof fn lemma_spec_find_remove_other(s: Seq<CacheEntry>, r: int, k: Seq<char>)
    requires
        0 <= r < s.len(),
        s[r].key@ != k,
    ensures
        spec_find(s.remove(r), k) == spec_find(s, k),
    decreases s.len(),
{
    if r == 0 {
        assert(s.remove(0) =~= s.drop_first());
    } else if s[0].key@ == k {
        assert(s.remove(r)[0] == s[0]);
    } else {
        assert(s.remove(r).drop_first() =~= s.drop_first().remove(r - 1));
        assert(s.remove(r)[0] == s[0]);
        lemma_spec_find_remove_other(s.drop_first(), r - 1, k);
    }
}

} // verus!
