//! A bounded, time-expiring map from `group#user` keys to booleans.
//!
//! Each entry carries the instant at which it stops being valid; a
//! lookup at clock value `now` sees an entry only while `now` is
//! strictly before that instant. The store is bounded: when a new key
//! arrives at capacity, the oldest entry is evicted.

use vstd::prelude::*;

verus! {

/// Most entries a [`MemberCache`] will hold at once.
pub const MEMBER_CACHE_CAPACITY: usize = 1000;

/// One cached membership answer: the lookup key, the boolean the
/// authority returned, and the instant (in seconds) at which the
/// answer stops being served.
pub struct CacheEntry {
    pub key: String,
    pub value: bool,
    pub expires_at: u64,
}

/// The entry whose key reads `key`, if one is present.
pub open spec fn cache_find(entries: Seq<CacheEntry>, key: Seq<char>) -> Option<CacheEntry>
    decreases entries.len(),
{
    if entries.len() == 0 {
        None
    } else if entries.first().key@ == key {
        Some(entries.first())
    } else {
        cache_find(entries.drop_first(), key)
    }
}

/// What a lookup at clock value `now` answers: the stored boolean while
/// the entry is live, nothing once it has expired or was never stored.
pub open spec fn spec_lookup(entries: Seq<CacheEntry>, key: Seq<char>, now: u64) -> Option<bool> {
    match cache_find(entries, key) {
        Some(e) => if now < e.expires_at {
            Some(e.value)
        } else {
            None
        },
        None => None,
    }
}

/// Bounded, time-expiring map from string keys to booleans.
pub struct MemberCache {
    entries: Vec<CacheEntry>,
}

impl MemberCache {
    /// The stored entries, oldest first.
    pub closed spec fn view(self) -> Seq<CacheEntry> {
        self.entries@
    }

    /// Keys are never duplicated and the store never exceeds its capacity.
    pub open spec fn wf(self) -> bool {
        &&& self@.len() <= MEMBER_CACHE_CAPACITY
        &&& forall|i: int, j: int|
            0 <= i < j < self@.len() ==> self@[i].key@ != self@[j].key@
    }

    /// An empty cache.
    pub fn new() -> (r: MemberCache)
        ensures
            r@ == Seq::<CacheEntry>::empty(),
            r.wf(),
    {
        MemberCache { entries: Vec::new() }
    }

    /// Return the cached boolean for `key` if an entry is present and
    /// still live at clock value `now`.
    pub fn lookup(&self, key: &String, now: u64) -> (r: Option<bool>)
        ensures
            r == spec_lookup(self@, key@, now),
    {
        match self.find_index(key) {
            Some(i) => {
                if now < self.entries[i].expires_at {
                    Some(self.entries[i].value)
                } else {
                    None
                }
            },
            None => None,
        }
    }

    /// Index of the entry whose key reads `key`, if one is present.
    fn find_index(&self, key: &String) -> (r: Option<usize>)
        ensures
            match r {
                Some(i) => i < self@.len() && self@[i as int].key@ == key@
                    && cache_find(self@, key@) == Some(self@[i as int])
                    && (forall|j: int| 0 <= j < i ==> self@[j].key@ != key@),
                None => cache_find(self@, key@) is None,
            },
    {
        let n = self.entries.len();
        let mut i: usize = 0;
        proof {
            assert(self@.skip(0) =~= self@);
        }
        while i < n
            invariant
                n == self@.len(),
                0 <= i <= n,
                cache_find(self@, key@) == cache_find(self@.skip(i as int), key@),
                forall|j: int| 0 <= j < i ==> self@[j].key@ != key@,
            decreases n - i,
        {
            proof {
                assert(self@.skip(i as int).first() == self@[i as int]);
            }
            if self.entries[i].key.eq(key) {
                return Some(i);
            }
            proof {
                assert(self@.skip(i as int).drop_first() =~= self@.skip(i + 1));
            }
            i = i + 1;
        }
        proof {
            assert(self@.skip(n as int) =~= Seq::<CacheEntry>::empty());
        }
        None
    }

    /// Store `value` under `key`, valid until `expires_at`, replacing
    /// any earlier entry for the same key. At capacity the oldest entry
    /// makes room; every other key keeps its answer.
    pub fn insert(&mut self, key: String, value: bool, expires_at: u64)
        requires
            old(self).wf(),
        ensures
            final(self).wf(),
            cache_find(final(self)@, key@) matches Some(e)
                && e.key@ == key@ && e.value == value && e.expires_at == expires_at,
            forall|k: Seq<char>| k != key@ && (old(self)@.len() < MEMBER_CACHE_CAPACITY
                || cache_find(old(self)@, key@) is Some) ==>
                #[trigger] cache_find(final(self)@, k) == cache_find(old(self)@, k),
            forall|k: Seq<char>| k != key@ ==>
                (#[trigger] cache_find(final(self)@, k) == cache_find(old(self)@, k)
                    || cache_find(final(self)@, k) is None),
    {
        match self.find_index(&key) {
            Some(i) => {
                self.entries.remove(i);
                proof {
                    lemma_cache_find_remove(old(self)@, i as int);
                    assert forall|p: int, q: int|
                        0 <= p < q < self@.len() implies self@[p].key@ != self@[q].key@ by {
                        lemma_remove_index(old(self)@, i as int, p);
                        lemma_remove_index(old(self)@, i as int, q);
                    }
                    lemma_cache_find_none_no_key(self@, key@);
                }
            },
            None => {
                proof {
                    lemma_cache_find_none_no_key(self@, key@);
                }
                if self.entries.len() == MEMBER_CACHE_CAPACITY {
                    let ghost pre = self@;
                    self.entries.remove(0);
                    proof {
                        assert(pre.remove(0) =~= pre.drop_first());
                        assert forall|j: int| 0 <= j < self@.len() implies
                            self@[j].key@ != key@ by {
                            assert(self@[j] == pre[j + 1]);
                        }
                        assert forall|p: int, q: int|
                            0 <= p < q < self@.len() implies self@[p].key@ != self@[q].key@ by {
                            assert(self@[p] == pre[p + 1]);
                            assert(self@[q] == pre[q + 1]);
                        }
                        assert forall|k: Seq<char>| k != key@ implies
                            (#[trigger] cache_find(self@, k) == cache_find(pre, k)
                                || cache_find(self@, k) is None) by {
                            if k == pre.first().key@ {
                                assert forall|j: int| 0 <= j < self@.len() implies
                                    self@[j].key@ != k by {
                                    assert(self@[j] == pre[j + 1]);
                                }
                                lemma_cache_find_absent(self@, k);
                            } else {
                                assert(cache_find(pre, k) == cache_find(pre.drop_first(), k));
                            }
                        }
                    }
                }
            },
        }
        let ghost mid = self.entries@;
        proof {
            lemma_cache_find_absent(mid, key@);
        }
        self.entries.push(CacheEntry { key, value, expires_at });
        proof {
            lemma_cache_find_push(mid, self@.last());
            assert forall|p: int, q: int|
                0 <= p < q < self@.len() implies self@[p].key@ != self@[q].key@ by {
                if q < mid.len() {
                    assert(self@[p] == mid[p]);
                    assert(self@[q] == mid[q]);
                } else {
                    assert(self@[p] == mid[p]);
                    assert(self@[q] == self@.last());
                }
            }
        }
    }
}

/// A key that is not found is carried by no entry.
proof fn lemma_cache_find_none_no_key(entries: Seq<CacheEntry>, key: Seq<char>)
    requires
        cache_find(entries, key) is None,
    ensures
        forall|i: int| 0 <= i < entries.len() ==> entries[i].key@ != key,
    decreases entries.len(),
{
    if entries.len() > 0 {
        lemma_cache_find_none_no_key(entries.drop_first(), key);
        assert forall|i: int| 0 <= i < entries.len() implies entries[i].key@ != key by {
            if i > 0 {
                assert(entries.drop_first()[i - 1] == entries[i]);
            }
        }
    }
}

/// A key carried by no entry is not found.
proof fn lemma_cache_find_absent(entries: Seq<CacheEntry>, key: Seq<char>)
    requires
        forall|j: int| 0 <= j < entries.len() ==> entries[j].key@ != key,
    ensures
        cache_find(entries, key) is None,
    decreases entries.len(),
{
    if entries.len() > 0 {
        assert forall|j: int| 0 <= j < entries.drop_first().len() implies
            entries.drop_first()[j].key@ != key by {
            assert(entries.drop_first()[j] == entries[j + 1]);
        }
        lemma_cache_find_absent(entries.drop_first(), key);
    }
}

/// How the entries are renumbered when one is removed.
proof fn lemma_remove_index(entries: Seq<CacheEntry>, i: int, p: int)
    requires
        0 <= i < entries.len(),
        0 <= p < entries.len() - 1,
    ensures
        entries.remove(i)[p] == if p < i {
            entries[p]
        } else {
            entries[p + 1]
        },
{
}

/// Appending an entry whose key is absent leaves every other key's
/// answer unchanged and makes the new entry the one found for its key.
proof fn lemma_cache_find_push(entries: Seq<CacheEntry>, e: CacheEntry)
    requires
        cache_find(entries, e.key@) is None,
    ensures
        cache_find(entries.push(e), e.key@) == Some(e),
        forall|k: Seq<char>| k != e.key@ ==>
            #[trigger] cache_find(entries.push(e), k) == cache_find(entries, k),
    decreases entries.len(),
{
    if entries.len() == 0 {
        assert(entries.push(e).first() == e);
        assert forall|k: Seq<char>| k != e.key@ implies
            #[trigger] cache_find(entries.push(e), k) == cache_find(entries, k) by {
            assert(entries.push(e).drop_first() =~= Seq::<CacheEntry>::empty());
            assert(cache_find(Seq::<CacheEntry>::empty(), k) is None);
        }
    } else {
        lemma_cache_find_push(entries.drop_first(), e);
        assert(entries.push(e).first() == entries.first());
        assert(entries.push(e).drop_first() =~= entries.drop_first().push(e));
        assert forall|k: Seq<char>| k != e.key@ implies
            #[trigger] cache_find(entries.push(e), k) == cache_find(entries, k) by {
            assert(cache_find(entries.drop_first().push(e), k)
                == cache_find(entries.drop_first(), k));
        }
    }
}

/// Removing the entry found for a key erases that key's answer and
/// leaves every other key's answer unchanged.
proof fn lemma_cache_find_remove(entries: Seq<CacheEntry>, i: int)
    requires
        0 <= i < entries.len(),
        cache_find(entries, entries[i].key@) == Some(entries[i]),
        forall|p: int, q: int|
            0 <= p < q < entries.len() ==> entries[p].key@ != entries[q].key@,
    ensures
        cache_find(entries.remove(i), entries[i].key@) is None,
        forall|k: Seq<char>| k != entries[i].key@ ==>
            #[trigger] cache_find(entries.remove(i), k) == cache_find(entries, k),
    decreases entries.len(),
{
    if i == 0 {
        assert(entries.remove(0) =~= entries.drop_first());
        assert forall|j: int| 0 <= j < entries.drop_first().len() implies
            entries.drop_first()[j].key@ != entries[0].key@ by {
            assert(entries.drop_first()[j] == entries[j + 1]);
        }
        lemma_cache_find_absent(entries.drop_first(), entries[0].key@);
        assert forall|k: Seq<char>| k != entries[0].key@ implies
            #[trigger] cache_find(entries.remove(0), k) == cache_find(entries, k) by {
            assert(cache_find(entries, k) == cache_find(entries.drop_first(), k));
        }
    } else {
        assert(entries.remove(i).first() == entries.first());
        assert(entries.remove(i).drop_first() =~= entries.drop_first().remove(i - 1));
        assert(entries.drop_first()[i - 1] == entries[i]);
        assert forall|p: int, q: int|
            0 <= p < q < entries.drop_first().len() implies
            entries.drop_first()[p].key@ != entries.drop_first()[q].key@ by {
            assert(entries.drop_first()[p] == entries[p + 1]);
            assert(entries.drop_first()[q] == entries[q + 1]);
        }
        assert(entries.first().key@ != entries[i].key@);
        lemma_cache_find_remove(entries.drop_first(), i - 1);
        assert forall|k: Seq<char>| k != entries[i].key@ implies
            #[trigger] cache_find(entries.remove(i), k) == cache_find(entries, k) by {
            assert(cache_find(entries.drop_first().remove(i - 1), k)
                == cache_find(entries.drop_first(), k));
            if k != entries.first().key@ {
                assert(cache_find(entries, k) == cache_find(entries.drop_first(), k));
                assert(cache_find(entries.remove(i), k)
                    == cache_find(entries.remove(i).drop_first(), k));
            }
        }
    }
}

} // verus!
