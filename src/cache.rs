//! Memoised catalog searches that expire after a time to live.
//!
//! Times are milliseconds on a clock the caller reads. Expiry is checked on
//! every read, so an expired entry is never handed out, however long it waits
//! for compaction to sample it.
use vstd::prelude::*;

verus! {

/// One memoised search.
#[derive(Clone, Debug)]
pub struct CacheEntry<V> {
    pub key: String,
    pub value: V,
    pub inserted_at: u64,
    pub ttl: u64,
}

/// An entry is live until its age exceeds its time to live.
pub open spec fn is_live<V>(e: CacheEntry<V>, now: nat) -> bool {
    now <= e.inserted_at + e.ttl
}

/// No key appears twice.
pub open spec fn keys_distinct<V>(s: Seq<CacheEntry<V>>) -> bool {
    forall|i: int, j: int| 0 <= i < j < s.len() ==> (#[trigger] s[i]).key@ != (#[trigger] s[j]).key@
}

/// The entries of `s` that are live at `now`, in their order.
pub open spec fn live_only<V>(s: Seq<CacheEntry<V>>, now: nat) -> Seq<CacheEntry<V>>
    decreases s.len(),
{
    if s.len() == 0 {
        Seq::empty()
    } else {
        let rest = live_only(s.drop_last(), now);
        if is_live(s.last(), now) {
            rest.push(s.last())
        } else {
            rest
        }
    }
}

proof fn lemma_live_only_len<V>(s: Seq<CacheEntry<V>>, now: nat)
    ensures
        live_only(s, now).len() <= s.len(),
    decreases s.len(),
{
    if s.len() > 0 {
        lemma_live_only_len(s.drop_last(), now);
    }
}

/// How many entries a compaction pass from `start` examines.
pub open spec fn window_len(len: nat, start: nat, sample: nat) -> nat {
    if start >= len {
        0
    } else if len - start < sample {
        (len - start) as nat
    } else {
        sample
    }
}

/// A store of search results keyed by query string.
pub struct SearchCache<V> {
    entries: Vec<CacheEntry<V>>,
}

impl<V> View for SearchCache<V> {
    type V = Seq<CacheEntry<V>>;

    closed spec fn view(&self) -> Seq<CacheEntry<V>> {
        self.entries@
    }
}

/// How long a search result is kept: three hours.
pub const SEARCH_CACHE_TTL_MS: u64 = 10_800_000;

/// How many entries one compaction pass examines.
pub const PURGE_SAMPLE: usize = 64;

/// The pause between compaction passes: one minute.
pub const PURGE_INTERVAL_MS: u64 = 60_000;

/// How many sampled entries, in thousandths, may be expired before another
/// compaction pass runs at once.
pub const PURGE_AGAIN_PER_MILLE: usize = 10;

/// Another pass is due when more than `PURGE_AGAIN_PER_MILLE` thousandths of
/// the sampled entries were expired.
pub fn should_purge_again(examined: usize, expired: usize) -> (r: bool)
    ensures
        r == (expired * 1000 > examined * PURGE_AGAIN_PER_MILLE),
{
    expired as u128 * 1000 > examined as u128 * PURGE_AGAIN_PER_MILLE as u128
}

impl<V> SearchCache<V> {
    #[verifier::type_invariant]
    spec fn inv(self) -> bool {
        keys_distinct(self.entries@)
    }

    pub fn new() -> (r: SearchCache<V>)
        ensures
            r@ == Seq::<CacheEntry<V>>::empty(),
    {
        SearchCache { entries: Vec::new() }
    }

    pub fn len(&self) -> (r: usize)
        ensures
            r == self@.len(),
    {
        self.entries.len()
    }

    fn find(&self, key: &String) -> (r: Option<usize>)
        ensures
            r matches Some(i) ==> i < self@.len() && self@[i as int].key@ == key@,
            r is None ==> forall|i: int| 0 <= i < self@.len() ==> (#[trigger] self@[i]).key@ != key@,
    {
        let mut i: usize = 0;
        while i < self.entries.len()
            invariant
                i <= self.entries@.len(),
                forall|k: int| 0 <= k < i ==> (#[trigger] self.entries@[k]).key@ != key@,
            decreases self.entries@.len() - i,
        {
            if self.entries[i].key == *key {
                return Some(i);
            }
            i = i + 1;
        }
        None
    }

    /// The value stored under `key`, unless there is none or it has expired at `now`.
    pub fn get(&self, key: &String, now: u64) -> (r: Option<&V>)
        ensures
            r matches Some(v) ==> exists|i: int|
                0 <= i < self@.len() && self@[i].key@ == key@ && is_live(self@[i], now as nat)
                    && *v == self@[i].value,
            r is None ==> forall|i: int|
                0 <= i < self@.len() && (#[trigger] self@[i]).key@ == key@ ==> !is_live(
                    self@[i],
                    now as nat,
                ),
    {
        match self.find(key) {
            Some(i) => {
                let e = &self.entries[i];
                if now as u128 <= e.inserted_at as u128 + e.ttl as u128 {
                    Some(&e.value)
                } else {
                    proof {
                        use_type_invariant(self);
                    }
                    assert forall|j: int|
                        0 <= j < self@.len() && (#[trigger] self@[j]).key@ == key@ implies !is_live(
                        self@[j],
                        now as nat,
                    ) by {
                        if j != i {
                            if j < i {
                                assert(self.entries@[j].key@ != self.entries@[i as int].key@);
                            } else {
                                assert(self.entries@[i as int].key@ != self.entries@[j].key@);
                            }
                        }
                    }
                    None
                }
            },
            None => None,
        }
    }

    /// Stores `value` under `key` from `now` on for `ttl` milliseconds, in
    /// place of anything stored under it before.
    pub fn put(&mut self, key: String, value: V, ttl: u64, now: u64)
        ensures
            final(self)@.last() == (CacheEntry { key, value, inserted_at: now, ttl }),
            final(self)@.len() > 0,
            keys_distinct(final(self)@),
            forall|i: int|
                0 <= i < final(self)@.len() - 1 ==> (#[trigger] final(self)@[i]).key@ != key@
                    && old(self)@.contains(final(self)@[i]),
            forall|i: int|
                0 <= i < old(self)@.len() && (#[trigger] old(self)@[i]).key@ != key@
                    ==> final(self)@.contains(old(self)@[i]),
    {
        proof {
            use_type_invariant(&*self);
        }
        let ghost k = key@;
        let ghost before = self.entries@;
        let found = self.find(&key);
        let mut entries = Vec::new();
        std::mem::swap(&mut entries, &mut self.entries);
        if let Some(i) = found {
            entries.remove(i);
            proof {
                assert forall|a: int| 0 <= a < before.len() && a != i implies entries@.contains(
                    #[trigger] before[a],
                ) by {
                    if a < i {
                        assert(entries@[a] == before[a]);
                    } else {
                        assert(entries@[a - 1] == before[a]);
                    }
                }
            }
        }
        let ghost mid = entries@;
        assert(forall|a: int| 0 <= a < mid.len() ==> before.contains(#[trigger] mid[a])) by {
            if let Some(i) = found {
                assert forall|a: int| 0 <= a < mid.len() implies before.contains(#[trigger] mid[a]) by {
                    if a < i {
                        assert(mid[a] == before[a]);
                    } else {
                        assert(mid[a] == before[a + 1]);
                    }
                }
            } else {
                assert forall|a: int| 0 <= a < mid.len() implies before.contains(#[trigger] mid[a]) by {
                    assert(mid[a] == before[a]);
                }
            }
        }
        assert(forall|a: int| 0 <= a < mid.len() ==> (#[trigger] mid[a]).key@ != k) by {
            if let Some(i) = found {
                assert forall|a: int| 0 <= a < mid.len() implies (#[trigger] mid[a]).key@ != k by {
                    if a < i {
                        assert(mid[a] == before[a]);
                        assert(before[a].key@ != before[i as int].key@);
                    } else {
                        assert(mid[a] == before[a + 1]);
                        assert(before[i as int].key@ != before[a + 1].key@);
                    }
                }
            }
        }
        assert(keys_distinct(mid)) by {
            if let Some(i) = found {
                assert forall|a: int, b: int| 0 <= a < b < mid.len() implies (#[trigger] mid[a]).key@
                    != (#[trigger] mid[b]).key@ by {
                    let a0 = if a < i { a } else { a + 1 };
                    let b0 = if b < i { b } else { b + 1 };
                    assert(mid[a] == before[a0] && mid[b] == before[b0]);
                }
            }
        }
        let ghost e = CacheEntry { key, value, inserted_at: now, ttl };
        entries.push(CacheEntry { key, value, inserted_at: now, ttl });
        proof {
            let s = entries@;
            assert forall|a: int, b: int| 0 <= a < b < s.len() implies (#[trigger] s[a]).key@ != (
            #[trigger] s[b]).key@ by {
                if b == mid.len() {
                    assert(s[a] == mid[a]);
                } else {
                    assert(s[a] == mid[a] && s[b] == mid[b]);
                }
            }
            assert forall|a: int| 0 <= a < s.len() - 1 implies (#[trigger] s[a]).key@ != k
                && before.contains(s[a]) by {
                assert(s[a] == mid[a]);
            }
            assert forall|a: int| 0 <= a < before.len() && (#[trigger] before[a]).key@ != k implies s.contains(
                before[a],
            ) by {
                if let Some(i) = found {
                    assert(a != i);
                    assert(mid.contains(before[a]));
                } else {
                    assert(mid[a] == before[a]);
                }
                let j = choose|j: int| 0 <= j < mid.len() && mid[j] == before[a];
                assert(s[j] == mid[j]);
            }
        }
        self.entries = entries;
    }

    /// Compaction: examines the entries from index `start` on, at most
    /// `sample` of them, and removes those expired at `now`; returns how many
    /// it examined and how many it removed. Live entries are never removed.
    pub fn purge_sample(&mut self, now: u64, start: usize, sample: usize) -> (r: (usize, usize))
        ensures
            keys_distinct(final(self)@),
            start >= old(self)@.len() ==> r == (0usize, 0usize) && final(self)@ == old(self)@,
            start < old(self)@.len() ==> r.0 == window_len(
                old(self)@.len(),
                start as nat,
                sample as nat,
            ) && final(self)@ == old(self)@.subrange(0, start as int) + live_only(
                old(self)@.subrange(start as int, start + r.0),
                now as nat,
            ) + old(self)@.subrange(start + r.0, old(self)@.len() as int) && r.1 == r.0 - live_only(
                old(self)@.subrange(start as int, start + r.0),
                now as nat,
            ).len(),
    {
        proof {
            use_type_invariant(&*self);
        }
        let ghost before = self.entries@;
        let n = self.entries.len();
        if start >= n {
            return (0, 0);
        }
        let mut entries = Vec::new();
        std::mem::swap(&mut entries, &mut self.entries);
        let mut i: usize = start;
        let mut examined: usize = 0;
        let mut removed: usize = 0;
        while i < entries.len() && examined < sample
            invariant
                before.len() == n,
                start < n,
                examined <= sample,
                start + examined <= n,
                entries@ == before.subrange(0, start as int) + live_only(
                    before.subrange(start as int, start + examined),
                    now as nat,
                ) + before.subrange(start + examined, n as int),
                i == start + live_only(before.subrange(start as int, start + examined), now as nat).len(),
                removed + live_only(before.subrange(start as int, start + examined), now as nat).len()
                    == examined,
                keys_distinct(entries@),
            decreases sample - examined,
        {
            let ghost w = before.subrange(start as int, start + examined);
            let ghost w2 = before.subrange(start as int, start + examined + 1);
            proof {
                lemma_live_only_len(w, now as nat);
                assert(w2.drop_last() =~= w);
                assert(entries@[i as int] == before[start + examined]);
                assert(w2.last() == before[start + examined]);
            }
            let expired = now as u128 > entries[i].inserted_at as u128 + entries[i].ttl as u128;
            examined = examined + 1;
            if expired {
                let ghost old_entries = entries@;
                entries.remove(i);
                removed = removed + 1;
                proof {
                    assert(live_only(w2, now as nat) == live_only(w, now as nat));
                    assert(entries@ =~= before.subrange(0, start as int) + live_only(w2, now as nat)
                        + before.subrange(start + examined, n as int));
                    let s = entries@;
                    assert forall|a: int, b: int| 0 <= a < b < s.len() implies (#[trigger] s[a]).key@
                        != (#[trigger] s[b]).key@ by {
                        let a0 = if a < i { a } else { a + 1 };
                        let b0 = if b < i { b } else { b + 1 };
                        assert(s[a] == old_entries[a0] && s[b] == old_entries[b0]);
                    }
                }
            } else {
                proof {
                    assert(live_only(w2, now as nat) == live_only(w, now as nat).push(
                        before[start + examined - 1],
                    ));
                    assert(entries@ =~= before.subrange(0, start as int) + live_only(w2, now as nat)
                        + before.subrange(start + examined, n as int));
                }
                i = i + 1;
            }
        }
        proof {
            let w = before.subrange(start as int, start + examined);
            lemma_live_only_len(w, now as nat);
            if examined < sample {
                assert(entries@.len() == start + live_only(w, now as nat).len() + (n - start
                    - examined));
            }
        }
        self.entries = entries;
        (examined, removed)
    }
}

} // verus!
