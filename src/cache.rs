//! Caching of routing rules under a freshness window.
//!
//! A record's freshness is anchored to the time at which the store wrote it,
//! not to anything inside the record: a record written at `T` with a window
//! of `M` seconds is fresh at every time before `T + M`.
use vstd::prelude::*;

use crate::resolver::{duplicate_all, views, Resolver, ResolverView};
use crate::text::same_text;

verus! {

/// Nanoseconds in one second.
pub const NANOS_PER_SECOND: u128 = 1_000_000_000;

/// What is stored in the cache under a key: the rules and the number of
/// seconds they may be trusted.
#[derive(Debug)]
pub struct CacheItem {
    pub item: Vec<Resolver>,
    pub max_age: u64,
}

/// A record stored at `stored` with a window of `max_age` seconds is fresh
/// at `now`; times are nanoseconds since the Unix epoch.
pub open spec fn is_fresh(stored: u128, max_age: u64, now: u128) -> bool {
    (now as int) < (stored as int) + (max_age as int) * (NANOS_PER_SECOND as int)
}

/// Whether a record stored at `stored` with a window of `max_age` seconds
/// is still fresh at `now`.
pub fn is_fresh_at(stored: u128, max_age: u64, now: u128) -> (r: bool)
    ensures
        r == is_fresh(stored, max_age, now),
{
    if now < stored {
        return true;
    }
    let elapsed = now - stored;
    assert((max_age as int) * 1_000_000_000 <= 0xffff_ffff_ffff_ffffint * 1_000_000_000)
        by (nonlinear_arith);
    let window = (max_age as u128) * NANOS_PER_SECOND;
    elapsed < window
}

/// The outcome of a cache lookup: the stored rules where the store holds
/// a record, written at `last_modified`, that is still fresh at `now`;
/// otherwise nothing. A record that could not be read is passed as `None`
/// and counts as absent.
pub fn cached_resolvers(last_modified: Option<u128>, record: Option<CacheItem>, now: u128) -> (r:
    Option<Vec<Resolver>>)
    ensures
        match (last_modified, record) {
            (Some(t), Some(c)) => if is_fresh(t, c.max_age, now) {
                r == Some(c.item)
            } else {
                r is None
            },
            _ => r is None,
        },
{
    match (last_modified, record) {
        (Some(t), Some(c)) => {
            if is_fresh_at(t, c.max_age, now) {
                Some(c.item)
            } else {
                None
            }
        },
        _ => None,
    }
}

/// A record of a cache as its contract reads it.
pub struct StoredView {
    pub rules: Seq<ResolverView>,
    pub max_age: u64,
    pub stored: u128,
}

/// The rules a lookup at `now` yields from the records of a cache.
pub open spec fn lookup(records: Map<Seq<char>, StoredView>, key: Seq<char>, now: u128) -> Option<
    Seq<ResolverView>,
> {
    if records.contains_key(key) && is_fresh(records[key].stored, records[key].max_age, now) {
        Some(records[key].rules)
    } else {
        None
    }
}

/// A cache held in memory, for use in place of a remote store. Each
/// record keeps the time at which it was written.
pub struct MemoryCache {
    entries: Vec<(String, CacheItem, u128)>,
}

impl MemoryCache {
    spec fn key_at(&self, i: int) -> Seq<char> {
        self.entries@[i].0@
    }

    spec fn record_at(&self, i: int) -> StoredView {
        StoredView {
            rules: views(self.entries@[i].1.item@),
            max_age: self.entries@[i].1.max_age,
            stored: self.entries@[i].2,
        }
    }

    spec fn holds_at(&self, k: Seq<char>, i: int) -> bool {
        0 <= i < self.entries@.len() && self.key_at(i) == k
    }

    /// No two records share a key.
    pub closed spec fn wf(&self) -> bool {
        forall|i: int, j: int|
            0 <= i < self.entries@.len() && 0 <= j < self.entries@.len() && i != j
                ==> self.key_at(i) != self.key_at(j)
    }

    /// The records of the cache, by key.
    pub closed spec fn records(&self) -> Map<Seq<char>, StoredView> {
        Map::new(
            |k: Seq<char>| exists|i: int| self.holds_at(k, i),
            |k: Seq<char>| self.record_at(choose|i: int| self.holds_at(k, i)),
        )
    }

    proof fn lemma_record(&self, k: Seq<char>, i: int)
        requires
            self.wf(),
            self.holds_at(k, i),
        ensures
            self.records().contains_key(k),
            self.records()[k] == self.record_at(i),
    {
        assert(self.records().dom().contains(k));
        let c = choose|c: int| self.holds_at(k, c);
        assert(self.holds_at(k, c));
        assert(c == i);
    }

    /// An empty cache.
    pub fn new() -> (r: MemoryCache)
        ensures
            r.wf(),
            r.records() == Map::<Seq<char>, StoredView>::empty(),
    {
        let r = MemoryCache { entries: Vec::new() };
        assert(r.records() =~= Map::<Seq<char>, StoredView>::empty());
        r
    }

    fn position(&self, key: &str) -> (r: Option<usize>)
        ensures
            r matches Some(i) ==> self.holds_at(key@, i as int),
            r is None ==> !self.records().contains_key(key@),
    {
        let mut i: usize = 0;
        while i < self.entries.len()
            invariant
                i <= self.entries@.len(),
                forall|j: int| 0 <= j < i ==> self.key_at(j) != key@,
            decreases self.entries@.len() - i,
        {
            if same_text(self.entries[i].0.as_str(), key) {
                return Some(i);
            }
            i = i + 1;
        }
        None
    }

    /// The number of records.
    pub fn len(&self) -> (r: usize)
        requires
            self.wf(),
        ensures
            r == self.records().len(),
    {
        proof {
            self.lemma_len();
        }
        self.entries.len()
    }

    proof fn lemma_len(&self)
        requires
            self.wf(),
        ensures
            self.records().len() == self.entries@.len(),
            self.records().dom().finite(),
    {
        let keys = Seq::new(self.entries@.len(), |i: int| self.key_at(i));
        assert forall|i: int, j: int| 0 <= i < keys.len() && 0 <= j < keys.len() && i != j implies keys[i]
            != keys[j] by {}
        assert(keys.no_duplicates());
        assert(self.records().dom() =~= keys.to_set()) by {
            assert forall|k: Seq<char>| #[trigger] self.records().dom().contains(k) implies keys.to_set().contains(k) by {
                let i = choose|i: int| self.holds_at(k, i);
                assert(keys[i] == k);
            }
            assert forall|k: Seq<char>| #[trigger] keys.to_set().contains(k) implies self.records().dom().contains(k) by {
                let i = choose|i: int| 0 <= i < keys.len() && keys[i] == k;
                assert(self.holds_at(k, i));
            }
        }
        keys.unique_seq_to_set();
    }

    /// The rules stored under `key`, if the record there is still fresh
    /// at `now`.
    pub fn get(&self, key: &str, now: u128) -> (r: Option<Vec<Resolver>>)
        requires
            self.wf(),
        ensures
            match lookup(self.records(), key@, now) {
                Some(v) => r matches Some(rules) && views(rules@) == v,
                None => r is None,
            },
    {
        match self.position(key) {
            None => None,
            Some(i) => {
                proof {
                    self.lemma_record(key@, i as int);
                }
                let entry = &self.entries[i];
                if is_fresh_at(entry.2, entry.1.max_age, now) {
                    Some(duplicate_all(&entry.1.item))
                } else {
                    None
                }
            },
        }
    }

    /// Stores `item` under `key` as written at `now`, replacing any record
    /// that was there.
    pub fn put(&mut self, key: &str, item: CacheItem, now: u128)
        requires
            old(self).wf(),
        ensures
            final(self).wf(),
            final(self).records() == old(self).records().insert(
                key@,
                StoredView { rules: views(item.item@), max_age: item.max_age, stored: now },
            ),
    {
        let ghost rec = StoredView { rules: views(item.item@), max_age: item.max_age, stored: now };
        let ghost before = self.records();
        match self.position(key) {
            Some(i) => {
                self.entries.set(i, (String::from_str(key), item, now));
                proof {
                    assert forall|a: int| 0 <= a < self.entries@.len() implies #[trigger] self.key_at(a)
                        == old(self).key_at(a) by {}
                    assert(self.wf());
                    assert(self.record_at(i as int) == rec);
                    assert forall|k: Seq<char>| #[trigger] self.records().contains_key(k) == before.insert(key@, rec).contains_key(k)
                        by {
                        if exists|j: int| old(self).holds_at(k, j) {
                            let j = choose|j: int| old(self).holds_at(k, j);
                            assert(self.holds_at(k, j));
                        }
                        if exists|j: int| self.holds_at(k, j) {
                            let j = choose|j: int| self.holds_at(k, j);
                            if j != i {
                                assert(old(self).holds_at(k, j));
                            }
                        }
                    }
                    assert forall|k: Seq<char>| #[trigger] self.records().contains_key(k) implies self.records()[k] == before.insert(key@, rec)[k]
                        by {
                        let j = choose|j: int| self.holds_at(k, j);
                        self.lemma_record(k, j);
                        if j != i {
                            assert(old(self).holds_at(k, j));
                            old(self).lemma_record(k, j);
                        }
                    }
                    assert(self.records() =~= before.insert(key@, rec));
                }
            },
            None => {
                let ghost n = self.entries@.len();
                self.entries.push((String::from_str(key), item, now));
                proof {
                    assert forall|a: int| 0 <= a < n implies #[trigger] self.key_at(a)
                        == old(self).key_at(a) && self.key_at(a) != key@ by {
                        assert(old(self).key_at(a) == self.entries@[a].0@);
                        if old(self).key_at(a) == key@ {
                            assert(old(self).holds_at(key@, a));
                        }
                    }
                    assert(self.wf());
                    assert(self.holds_at(key@, n as int));
                    assert forall|k: Seq<char>| #[trigger] self.records().contains_key(k) == before.insert(key@, rec).contains_key(k)
                        by {
                        if exists|j: int| old(self).holds_at(k, j) {
                            let j = choose|j: int| old(self).holds_at(k, j);
                            assert(self.holds_at(k, j));
                        }
                        if exists|j: int| self.holds_at(k, j) {
                            let j = choose|j: int| self.holds_at(k, j);
                            if j != n {
                                assert(old(self).holds_at(k, j));
                            }
                        }
                    }
                    assert forall|k: Seq<char>| #[trigger] self.records().contains_key(k) implies self.records()[k] == before.insert(key@, rec)[k]
                        by {
                        let j = choose|j: int| self.holds_at(k, j);
                        self.lemma_record(k, j);
                        if j != n {
                            assert(old(self).holds_at(k, j));
                            old(self).lemma_record(k, j);
                        }
                    }
                    assert(self.records() =~= before.insert(key@, rec));
                }
            },
        }
    }
}

} // verus!
