//! The usage cache: the last snapshot per account with the time it was
//! captured, fresh for a fixed time to live. Staleness is decided when an
//! entry is read; nothing is evicted in the background.

use vstd::prelude::*;
use crate::cycle::str_equal;
use crate::quota::UsageData;

verus! {

/// How long a cached snapshot stays fresh: 300 seconds, in milliseconds.
pub const CACHE_TTL_MS: u64 = 300000;

/// One cached snapshot.
pub struct CacheEntry {
    pub account: String,
    pub usage: UsageData,
    pub captured_at_ms: u64,
}

/// The cache: at most one entry per account.
pub struct QuotaCache {
    pub entries: Vec<CacheEntry>,
}

/// Whether a snapshot captured at `captured` is still fresh at `now`: its
/// age is at most the time to live (a capture time after `now` counts as
/// age zero).
pub open spec fn is_fresh(captured: u64, now: u64) -> bool {
    now as int - captured as int <= CACHE_TTL_MS as int
}

/// Index of the first entry of `name`, or `e.len()`.
pub open spec fn entry_index(e: Seq<CacheEntry>, name: Seq<char>) -> nat
    decreases e.len(),
{
    if e.len() == 0 {
        0
    } else if e[0].account@ == name {
        0
    } else {
        1 + entry_index(e.drop_first(), name)
    }
}

proof fn lemma_entry_index(e: Seq<CacheEntry>, name: Seq<char>, i: int)
    requires
        0 <= i <= e.len(),
        forall|j: int| 0 <= j < i ==> e[j].account@ != name,
        i == e.len() || e[i].account@ == name,
    ensures
        entry_index(e, name) == i,
    decreases i,
{
    if i > 0 {
        lemma_entry_index(e.drop_first(), name, i - 1);
    }
}

proof fn lemma_entry_facts(e: Seq<CacheEntry>, name: Seq<char>)
    ensures
        entry_index(e, name) <= e.len(),
        entry_index(e, name) < e.len() ==> e[entry_index(e, name) as int].account@ == name,
        forall|j: int| 0 <= j < entry_index(e, name) ==> e[j].account@ != name,
    decreases e.len(),
{
    if e.len() > 0 && e[0].account@ != name {
        lemma_entry_facts(e.drop_first(), name);
        assert forall|j: int| 0 <= j < entry_index(e, name) implies e[j].account@ != name by {
            if j > 0 {
                assert(e[j] == e.drop_first()[j - 1]);
            }
        }
    }
}

impl QuotaCache {
    /// The entry of `name`, if any.
    pub open spec fn entry(&self, name: Seq<char>) -> Option<CacheEntry> {
        let i = entry_index(self.entries@, name);
        if i < self.entries@.len() { Some(self.entries@[i as int]) } else { None }
    }

    /// An empty cache.
    pub fn new() -> (r: QuotaCache)
        ensures
            forall|name: Seq<char>| r.entry(name) is None,
    {
        QuotaCache { entries: Vec::new() }
    }

    fn find(&self, name: &str) -> (r: usize)
        ensures
            r as nat == entry_index(self.entries@, name@),
            r <= self.entries@.len(),
    {
        let mut i: usize = 0;
        while i < self.entries.len()
            invariant
                i <= self.entries@.len(),
                forall|j: int| 0 <= j < i ==> self.entries@[j].account@ != name@,
            decreases self.entries.len() - i,
        {
            if str_equal(self.entries[i].account.as_str(), name) {
                proof {
                    lemma_entry_index(self.entries@, name@, i as int);
                }
                return i;
            }
            i = i + 1;
        }
        proof {
            lemma_entry_index(self.entries@, name@, i as int);
        }
        i
    }

    /// The cached snapshot of `account` if it is fresh at `now_ms`, unchanged;
    /// `None` when there is none or it is stale.
    pub fn get(&self, account: &str, now_ms: u64) -> (r: Option<&UsageData>)
        ensures
            r is Some <==> (self.entry(account@) matches Some(e) && is_fresh(e.captured_at_ms, now_ms)),
            r matches Some(u) ==> *u == self.entry(account@).unwrap().usage,
    {
        let i = self.find(account);
        if i < self.entries.len() {
            let e = &self.entries[i];
            if now_ms <= e.captured_at_ms || now_ms - e.captured_at_ms <= CACHE_TTL_MS {
                return Some(&e.usage);
            }
        }
        None
    }

    /// Stores `usage` as the snapshot of `account` captured at `now_ms`,
    /// replacing any earlier one.
    pub fn put(&mut self, account: &str, usage: UsageData, now_ms: u64)
        ensures
            final(self).entry(account@) matches Some(e) && e.usage == usage && e.captured_at_ms == now_ms,
            forall|other: Seq<char>| other != account@ ==> #[trigger] final(self).entry(other) == old(self).entry(other),
    {
        let i = self.find(account);
        let ghost before = self.entries@;
        let entry = CacheEntry { account: String::from_str(account), usage, captured_at_ms: now_ms };
        proof {
            lemma_entry_facts(before, account@);
        }
        if i < self.entries.len() {
            self.entries.set(i, entry);
            proof {
                lemma_entry_index(self.entries@, account@, i as int);
                assert forall|other: Seq<char>| other != account@ implies
                    #[trigger] self.entry(other) == old(self).entry(other) by {
                    lemma_entry_facts(before, other);
                    lemma_entry_facts(self.entries@, other);
                    let k = entry_index(before, other) as int;
                    let k2 = entry_index(self.entries@, other) as int;
                    if k < k2 {
                        assert(self.entries@[k] == before[k]);
                    } else if k2 < k {
                        assert(self.entries@[k2] == before[k2]);
                    }
                }
            }
        } else {
            self.entries.push(entry);
            proof {
                lemma_entry_index(self.entries@, account@, i as int);
                assert forall|other: Seq<char>| other != account@ implies
                    #[trigger] self.entry(other) == old(self).entry(other) by {
                    lemma_entry_facts(before, other);
                    lemma_entry_facts(self.entries@, other);
                    let k = entry_index(before, other) as int;
                    let k2 = entry_index(self.entries@, other) as int;
                    if k < k2 && k < before.len() {
                        assert(self.entries@[k] == before[k]);
                    } else if k2 < k {
                        assert(self.entries@[k2] == before[k2]);
                    } else if k == k2 && k < before.len() {
                        assert(self.entries@[k] == before[k]);
                    }
                }
            }
        }
    }
}

} // verus!
