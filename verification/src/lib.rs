//! A W-TinyLFU cache: a small recency window in front of a segmented main
//! cache, with admission decided by an approximate frequency estimate.

pub mod freq;
pub mod lru_store;
pub mod model;
pub mod slru;

use crate::freq::{count_of, no_counts, FrequencyEstimator};
use crate::lru_store::{
    lru_cap, lru_cap_of, lru_clear, lru_contains, lru_entries, lru_get, lru_len, lru_new,
    lru_peek, lru_peek_lru, lru_pop, lru_pop_entry, lru_pop_lru, lru_push, lru_resize, lru_seq,
};
use crate::model::{
    disjoint_keys, distinct_keys, has_key, index_of_key, lemma_drop_last, lemma_index_of_key,
    lemma_insert_front, lemma_promote, lemma_remove_at, lemma_take, lemma_update_front, promote,
    update_front, value_of, Entry,
};
use crate::slru::{spec_probationary_cap, spec_protected_cap, SlruCache};
use lru::LruCache;
use vstd::prelude::*;

verus! {

/// The window bound for an overall capacity `cap`: a hundredth of the whole,
/// and at least one.
pub open spec fn spec_window_cap(cap: int) -> int {
    if cap / 100 < 1 {
        1
    } else {
        cap / 100
    }
}

/// The bound handed to the segmented main cache: what the window leaves over,
/// and at least one.
pub open spec fn spec_main_cap(cap: int) -> int {
    if cap - spec_window_cap(cap) < 1 {
        1
    } else {
        cap - spec_window_cap(cap)
    }
}

/// W-TinyLFU cache: every new entry lands in a small recency window; what the
/// window displaces must beat the main cache's probationary LRU entry on
/// estimated frequency to be admitted into the main cache.
pub struct WTinyLfuCache {
    frequency_estimator: FrequencyEstimator,
    window_cache: LruCache<u64, String>,
    main_cache: SlruCache,
}

impl WTinyLfuCache {
    /// The window entries, most recently used first.
    pub closed spec fn window(self) -> Seq<Entry> {
        lru_seq(self.window_cache)
    }

    pub closed spec fn window_cap(self) -> nat {
        lru_cap(self.window_cache)
    }

    /// The segmented main cache.
    pub closed spec fn main_slru(self) -> SlruCache {
        self.main_cache
    }

    /// The frequency estimator.
    pub closed spec fn freq(self) -> FrequencyEstimator {
        self.frequency_estimator
    }

    pub open spec fn wf(self) -> bool {
        &&& distinct_keys(self.window())
        &&& self.window().len() <= self.window_cap()
        &&& 1 <= self.window_cap()
        &&& self.main_slru().wf()
        &&& disjoint_keys(self.window(), self.main_slru().probationary())
        &&& disjoint_keys(self.window(), self.main_slru().protected())
        &&& self.freq().wf()
        &&& self.window_cap() + self.main_slru().spec_cap() <= usize::MAX
    }

    pub open spec fn spec_contains(self, k: u64) -> bool {
        has_key(self.window(), k) || self.main_slru().spec_contains(k)
    }

    /// The value stored under `k`, looked up window first.
    pub open spec fn spec_value(self, k: u64) -> Seq<char> {
        if has_key(self.window(), k) {
            value_of(self.window(), k)
        } else {
            self.main_slru().spec_value(k)
        }
    }

    pub open spec fn spec_len(self) -> nat {
        self.window().len() + self.main_slru().spec_len()
    }

    pub open spec fn spec_cap(self) -> nat {
        self.window_cap() + self.main_slru().spec_cap()
    }

    /// Every entry in iteration order: the window in recency order, then the
    /// probationary segment, then the protected one.
    pub open spec fn all_entries(self) -> Seq<Entry> {
        self.window() + self.main_slru().probationary() + self.main_slru().protected()
    }

    /// An empty cache for `cap` entries with an aging window of `sample_size`
    /// qualifying accesses.
    pub fn new(cap: usize, sample_size: usize) -> (r: WTinyLfuCache)
        requires
            1 <= cap <= usize::MAX / 4,
            1 <= sample_size <= usize::MAX / 16,
        ensures
            r.wf(),
            r.spec_len() == 0,
            r.window() == Seq::<Entry>::empty(),
            r.main_slru().probationary() == Seq::<Entry>::empty(),
            r.main_slru().protected() == Seq::<Entry>::empty(),
            r.window_cap() == spec_window_cap(cap as int),
            r.main_slru().probationary_cap() == spec_probationary_cap(spec_main_cap(cap as int)),
            r.main_slru().protected_cap() == spec_protected_cap(spec_main_cap(cap as int)),
            r.freq().spec_sample_size() == sample_size,
            r.freq().spec_sample_counter() == 0,
            r.freq().seen() == Set::<u64>::empty(),
            r.freq().counts() == no_counts(),
            r.freq().records() == 0,
            cap <= r.spec_cap() <= cap + 2,
    {
        let hundredth: usize = cap / 100;
        let window_cap: usize = if hundredth < 1 {
            1
        } else {
            hundredth
        };
        let rest: usize = cap - window_cap;
        let main_cap: usize = if rest < 1 {
            1
        } else {
            rest
        };
        WTinyLfuCache {
            frequency_estimator: FrequencyEstimator::new(sample_size),
            window_cache: lru_new(window_cap),
            main_cache: SlruCache::new(main_cap),
        }
    }

    /// Whether any sub-cache holds the key.
    pub fn contains(&self, k: &u64) -> (r: bool)
        ensures
            r == self.spec_contains(*k),
    {
        if lru_contains(&self.window_cache, *k) {
            true
        } else {
            self.main_cache.contains(k)
        }
    }

    /// The value under the key, window first, with no promotion and no note
    /// taken by the frequency estimator.
    pub fn peek(&self, k: &u64) -> (r: Option<String>)
        ensures
            self.spec_contains(*k) ==> {
                &&& r is Some
                &&& r->Some_0@ == self.spec_value(*k)
            },
            !self.spec_contains(*k) ==> r is None,
    {
        match lru_peek(&self.window_cache, *k) {
            Some(v) => Some(v),
            None => self.main_cache.peek(k),
        }
    }

    /// Like `peek`; the name is kept for callers that want a value they may
    /// change and write back with `put`.
    pub fn peek_mut(&mut self, k: &u64) -> (r: Option<String>)
        ensures
            *final(self) == *old(self),
            old(self).spec_contains(*k) ==> {
                &&& r is Some
                &&& r->Some_0@ == old(self).spec_value(*k)
            },
            !old(self).spec_contains(*k) ==> r is None,
    {
        match lru_peek(&self.window_cache, *k) {
            Some(v) => Some(v),
            None => self.main_cache.peek_mut(k),
        }
    }

    /// The least recently used pair of the window cache.
    pub fn peek_lru_window(&self) -> (r: Option<(u64, String)>)
        ensures
            self.window().len() > 0 ==> {
                &&& r is Some
                &&& r->Some_0.0 == self.window().last().0
                &&& r->Some_0.1@ == self.window().last().1
            },
            self.window().len() == 0 ==> r is None,
    {
        lru_peek_lru(&self.window_cache)
    }

    /// The least recently used pair of the main cache, probationary first.
    pub fn peek_lru_main(&self) -> (r: Option<(u64, String)>)
        ensures
            self.main_slru().probationary().len() > 0 ==> {
                &&& r is Some
                &&& r->Some_0.0 == self.main_slru().probationary().last().0
                &&& r->Some_0.1@ == self.main_slru().probationary().last().1
            },
            self.main_slru().probationary().len() == 0 && self.main_slru().protected().len() > 0 ==> {
                &&& r is Some
                &&& r->Some_0.0 == self.main_slru().protected().last().0
                &&& r->Some_0.1@ == self.main_slru().protected().last().1
            },
            self.main_slru().spec_len() == 0 ==> r is None,
    {
        self.main_cache.peek_lru()
    }

    /// Remove and return the least recently used pair of the window cache.
    pub fn pop_lru_window(&mut self) -> (r: Option<(u64, String)>)
        requires
            old(self).wf(),
        ensures
            final(self).wf(),
            final(self).window_cap() == old(self).window_cap(),
            final(self).main_slru() == old(self).main_slru(),
            final(self).freq() == old(self).freq(),
            old(self).window().len() > 0 ==> {
                &&& final(self).window() == old(self).window().drop_last()
                &&& r is Some
                &&& r->Some_0.0 == old(self).window().last().0
                &&& r->Some_0.1@ == old(self).window().last().1
            },
            old(self).window().len() == 0 ==> {
                &&& final(self).window() == old(self).window()
                &&& r is None
            },
    {
        let ghost w = self.window();
        let r = lru_pop_lru(&mut self.window_cache);
        proof {
            if w.len() > 0 {
                lemma_drop_last(w);
            }
        }
        r
    }

    /// Remove and return the least recently used pair of the main cache.
    pub fn pop_lru_main(&mut self) -> (r: Option<(u64, String)>)
        requires
            old(self).wf(),
        ensures
            final(self).wf(),
            final(self).window() == old(self).window(),
            final(self).window_cap() == old(self).window_cap(),
            final(self).freq() == old(self).freq(),
            final(self).main_slru().probationary_cap() == old(self).main_slru().probationary_cap(),
            final(self).main_slru().protected_cap() == old(self).main_slru().protected_cap(),
            old(self).main_slru().probationary().len() > 0 ==> {
                &&& final(self).main_slru().probationary() == old(self).main_slru().probationary().drop_last()
                &&& final(self).main_slru().protected() == old(self).main_slru().protected()
                &&& r is Some
                &&& r->Some_0.0 == old(self).main_slru().probationary().last().0
                &&& r->Some_0.1@ == old(self).main_slru().probationary().last().1
            },
            old(self).main_slru().probationary().len() == 0 && old(self).main_slru().protected().len() > 0
                ==> {
                &&& final(self).main_slru().probationary() == old(self).main_slru().probationary()
                &&& final(self).main_slru().protected() == old(self).main_slru().protected().drop_last()
                &&& r is Some
                &&& r->Some_0.0 == old(self).main_slru().protected().last().0
                &&& r->Some_0.1@ == old(self).main_slru().protected().last().1
            },
            old(self).main_slru().spec_len() == 0 ==> {
                &&& final(self).main_slru().probationary() == old(self).main_slru().probationary()
                &&& final(self).main_slru().protected() == old(self).main_slru().protected()
                &&& r is None
            },
    {
        self.main_cache.pop_lru()
    }

    /// The number of entries across all sub-caches.
    pub fn len(&self) -> (r: usize)
        requires
            self.wf(),
        ensures
            r as nat == self.spec_len(),
    {
        lru_len(&self.window_cache) + self.main_cache.len()
    }

    /// Whether the cache holds nothing.
    pub fn is_empty(&self) -> (r: bool)
        requires
            self.wf(),
        ensures
            r == (self.spec_len() == 0),
    {
        self.len() == 0
    }

    /// The bound across all sub-caches: how many entries the cache can hold.
    pub fn cap(&self) -> (r: usize)
        requires
            self.wf(),
        ensures
            r as nat == self.spec_cap(),
    {
        lru_cap_of(&self.window_cache) + self.main_cache.cap()
    }

    /// Drop every entry of every sub-cache; the bounds are kept, and so is
    /// the frequency estimator's history.
    pub fn clear(&mut self)
        requires
            old(self).wf(),
        ensures
            final(self).wf(),
            final(self).spec_len() == 0,
            final(self).window() == Seq::<Entry>::empty(),
            final(self).main_slru().probationary() == Seq::<Entry>::empty(),
            final(self).main_slru().protected() == Seq::<Entry>::empty(),
            final(self).window_cap() == old(self).window_cap(),
            final(self).main_slru().probationary_cap() == old(self).main_slru().probationary_cap(),
            final(self).main_slru().protected_cap() == old(self).main_slru().protected_cap(),
            final(self).spec_cap() == old(self).spec_cap(),
            final(self).freq() == old(self).freq(),
    {
        lru_clear(&mut self.window_cache);
        self.main_cache.clear();
    }

    /// The approximate frequency of `k`, as the admission contest sees it:
    /// never below the count the estimator has recorded for the key, and zero
    /// on a freshly built or freshly aged estimator.
    fn estimate(&self, k: &u64) -> (r: u16)
        ensures
            self.freq().seen().contains(*k) ==> r >= 1,
            count_of(self.freq().counts(), *k) <= u16::MAX ==> r >= count_of(
                self.freq().counts(),
                *k,
            ),
            self.freq().seen().contains(*k) && count_of(self.freq().counts(), *k) < u16::MAX
                ==> r >= count_of(self.freq().counts(), *k) + 1,
            count_of(self.freq().counts(), *k) > u16::MAX ==> r == u16::MAX,
            self.freq().counts() == no_counts() && self.freq().seen() == Set::<u64>::empty()
                ==> r == 0,
    {
        self.frequency_estimator.estimate(*k)
    }

    /// Insert or update. A present key is updated in place in its sub-cache
    /// and the old pair is returned. A new key enters the window; if the
    /// window displaces its LRU pair, that pair contests admission into the
    /// main cache, and the contest's loser is returned as the eviction.
    pub fn push(&mut self, k: u64, v: String) -> (r: Option<(u64, String)>)
        requires
            old(self).wf(),
        ensures
            final(self).wf(),
            final(self).window_cap() == old(self).window_cap(),
            final(self).main_slru().probationary_cap() == old(self).main_slru().probationary_cap(),
            final(self).main_slru().protected_cap() == old(self).main_slru().protected_cap(),
            final(self).freq() == old(self).freq(),
            push_outcome(*old(self), *final(self), k, v@, evicted_of(r)),
            final(self).spec_contains(k),
            final(self).spec_value(k) == v@,
            old(self).spec_contains(k) ==> final(self).spec_len() == old(self).spec_len(),
            final(self).spec_len() <= old(self).spec_len() + 1,
    {
        let ghost pre = *self;
        if lru_contains(&self.window_cache, k) {
            let r = lru_push(&mut self.window_cache, k, v);
            proof {
                lemma_update_front(pre.window(), k, v@);
            }
            return r;
        }
        if self.main_cache.contains(&k) {
            let r = self.main_cache.push(k, v);
            proof {
                if has_key(pre.main_slru().probationary(), k) {
                    lemma_update_front(pre.main_slru().probationary(), k, v@);
                } else {
                    lemma_update_front(pre.main_slru().protected(), k, v@);
                }
            }
            return r;
        }
        match lru_push(&mut self.window_cache, k, v) {
            Some(wp) => {
                proof {
                    lemma_drop_last(pre.window());
                    lemma_insert_front(pre.window().drop_last(), (k, v@));
                    assert((wp.0, wp.1@) == pre.window().last());
                }
                match self.main_cache.peek_lru_if_full() {
                    Some(mp) => {
                        let fw = self.estimate(&wp.0);
                        let fm = self.estimate(&mp.0);
                        if fw > fm {
                            let ghost mainpre = self.main_slru();
                            let r = self.main_cache.push(wp.0, wp.1);
                            proof {
                                lemma_drop_last(mainpre.probationary());
                                lemma_insert_front(
                                    mainpre.probationary().drop_last(),
                                    (wp.0, wp.1@),
                                );
                            }
                            return r;
                        }
                        Some(wp)
                    },
                    None => {
                        let ghost mainpre = self.main_slru();
                        let r = self.main_cache.push(wp.0, wp.1);
                        proof {
                            lemma_insert_front(mainpre.probationary(), (wp.0, wp.1@));
                        }
                        r
                    },
                }
            },
            None => {
                proof {
                    lemma_insert_front(pre.window(), (k, v@));
                }
                None
            },
        }
    }

    /// Insert or update, returning the old value of an updated key. The
    /// eviction a `push` would report is hidden.
    pub fn put(&mut self, k: u64, v: String) -> (r: Option<String>)
        requires
            old(self).wf(),
        ensures
            final(self).wf(),
            final(self).window_cap() == old(self).window_cap(),
            final(self).main_slru().probationary_cap() == old(self).main_slru().probationary_cap(),
            final(self).main_slru().protected_cap() == old(self).main_slru().protected_cap(),
            final(self).freq() == old(self).freq(),
            old(self).spec_contains(k) ==> {
                &&& r is Some
                &&& r->Some_0@ == old(self).spec_value(k)
                &&& final(self).spec_len() == old(self).spec_len()
            },
            !old(self).spec_contains(k) ==> {
                &&& r is None
                &&& exists|ev: Option<Entry>|
                    push_outcome(*old(self), *final(self), k, v@, ev)
            },
            has_key(old(self).window(), k) ==> {
                &&& final(self).window() == update_front(old(self).window(), k, v@)
                &&& final(self).main_slru().probationary() == old(self).main_slru().probationary()
                &&& final(self).main_slru().protected() == old(self).main_slru().protected()
            },
            !has_key(old(self).window(), k) && has_key(old(self).main_slru().probationary(), k)
                ==> {
                &&& final(self).window() == old(self).window()
                &&& final(self).main_slru().probationary() == update_front(
                    old(self).main_slru().probationary(),
                    k,
                    v@,
                )
                &&& final(self).main_slru().protected() == old(self).main_slru().protected()
            },
            !has_key(old(self).window(), k) && has_key(old(self).main_slru().protected(), k)
                ==> {
                &&& final(self).window() == old(self).window()
                &&& final(self).main_slru().protected() == update_front(
                    old(self).main_slru().protected(),
                    k,
                    v@,
                )
                &&& final(self).main_slru().probationary() == old(self).main_slru().probationary()
            },
            final(self).spec_contains(k),
            final(self).spec_value(k) == v@,
            final(self).spec_len() <= old(self).spec_len() + 1,
    {
        let ghost pre = *self;
        if lru_contains(&self.window_cache, k) {
            let r = lru_push(&mut self.window_cache, k, v);
            proof {
                lemma_update_front(pre.window(), k, v@);
            }
            return match r {
                Some(p) => Some(p.1),
                None => None,
            };
        }
        if self.main_cache.contains(&k) {
            let r = self.main_cache.put(k, v);
            proof {
                if has_key(pre.main_slru().probationary(), k) {
                    lemma_update_front(pre.main_slru().probationary(), k, v@);
                } else {
                    lemma_update_front(pre.main_slru().protected(), k, v@);
                }
            }
            return r;
        }
        let pr = self.push(k, v);
        proof {
            assert(push_outcome(pre, *self, k, v@, evicted_of(pr)));
        }
        None
    }

    /// Look the key up, window first; a hit in the main cache performs the
    /// probationary-to-protected promotion. On a hit the frequency estimator
    /// records the access, exactly once; a miss records nothing.
    pub fn get(&mut self, k: &u64) -> (r: Option<String>)
        requires
            old(self).wf(),
        ensures
            final(self).wf(),
            final(self).window_cap() == old(self).window_cap(),
            final(self).main_slru().probationary_cap() == old(self).main_slru().probationary_cap(),
            final(self).main_slru().protected_cap() == old(self).main_slru().protected_cap(),
            final(self).spec_len() == old(self).spec_len(),
            final(self).freq().spec_sample_size() == old(self).freq().spec_sample_size(),
            !old(self).spec_contains(*k) ==> {
                &&& final(self).window() == old(self).window()
                &&& final(self).main_slru().probationary() == old(self).main_slru().probationary()
                &&& final(self).main_slru().protected() == old(self).main_slru().protected()
                &&& final(self).freq() == old(self).freq()
                &&& r is None
            },
            old(self).spec_contains(*k) ==> {
                &&& r is Some
                &&& r->Some_0@ == old(self).spec_value(*k)
                &&& final(self).spec_contains(*k)
                &&& final(self).spec_value(*k) == old(self).spec_value(*k)
                &&& final(self).freq().records() == old(self).freq().records() + 1
                &&& (old(self).freq().recorded_in_sketch(final(self).freq(), *k) || old(
                    self,
                ).freq().admitted_to_doorkeeper(final(self).freq(), *k))
                &&& (old(self).freq().seen().contains(*k) ==> old(self).freq().recorded_in_sketch(
                    final(self).freq(),
                    *k,
                ))
            },
            has_key(old(self).window(), *k) ==> {
                &&& final(self).window() == promote(old(self).window(), *k)
                &&& final(self).main_slru().probationary() == old(self).main_slru().probationary()
                &&& final(self).main_slru().protected() == old(self).main_slru().protected()
            },
            !has_key(old(self).window(), *k) && old(self).main_slru().spec_contains(*k)
                ==> final(self).window() == old(self).window(),
            !has_key(old(self).window(), *k) && has_key(old(self).main_slru().protected(), *k)
                ==> {
                &&& final(self).main_slru().probationary() == old(self).main_slru().probationary()
                &&& final(self).main_slru().protected() == promote(
                    old(self).main_slru().protected(),
                    *k,
                )
            },
            !has_key(old(self).window(), *k) && has_key(old(self).main_slru().probationary(), *k)
                && old(self).main_slru().protected().len() != old(
                self,
            ).main_slru().protected_cap() ==> {
                &&& final(self).main_slru().probationary() == old(
                    self,
                ).main_slru().probationary().remove(
                    index_of_key(old(self).main_slru().probationary(), *k),
                )
                &&& final(self).main_slru().protected() == old(
                    self,
                ).main_slru().protected().insert(
                    0,
                    (*k, value_of(old(self).main_slru().probationary(), *k)),
                )
            },
            !has_key(old(self).window(), *k) && has_key(old(self).main_slru().probationary(), *k)
                && old(self).main_slru().protected().len() == old(
                self,
            ).main_slru().protected_cap() ==> {
                &&& final(self).main_slru().probationary() == old(
                    self,
                ).main_slru().probationary().remove(
                    index_of_key(old(self).main_slru().probationary(), *k),
                ).insert(0, old(self).main_slru().protected().last())
                &&& final(self).main_slru().protected() == old(
                    self,
                ).main_slru().protected().drop_last().insert(
                    0,
                    (*k, value_of(old(self).main_slru().probationary(), *k)),
                )
            },
    {
        let ghost pre = *self;
        let r = match lru_get(&mut self.window_cache, *k) {
            Some(v) => Some(v),
            None => self.main_cache.get(k),
        };
        proof {
            let prob = pre.main_slru().probationary();
            let prot = pre.main_slru().protected();
            if has_key(pre.window(), *k) {
                lemma_promote(pre.window(), *k);
            } else if has_key(prot, *k) {
                lemma_promote(prot, *k);
            } else if has_key(prob, *k) {
                lemma_index_of_key(prob, *k);
                lemma_remove_at(prob, index_of_key(prob, *k));
                if prot.len() != pre.main_slru().protected_cap() {
                    lemma_insert_front(prot, (*k, value_of(prob, *k)));
                } else {
                    lemma_drop_last(prot);
                    lemma_insert_front(prot.drop_last(), (*k, value_of(prob, *k)));
                    lemma_insert_front(prob.remove(index_of_key(prob, *k)), prot.last());
                }
            }
        }
        if r.is_some() {
            self.frequency_estimator.record(*k);
        }
        r
    }

    /// The same lookup, promotion and recording as `get`, under the same
    /// contract; the name is kept for callers that want a value they may
    /// change and write back with `put`.
    pub fn get_mut(&mut self, k: &u64) -> (r: Option<String>)
        requires
            old(self).wf(),
        ensures
            final(self).wf(),
            final(self).window_cap() == old(self).window_cap(),
            final(self).main_slru().probationary_cap() == old(self).main_slru().probationary_cap(),
            final(self).main_slru().protected_cap() == old(self).main_slru().protected_cap(),
            final(self).spec_len() == old(self).spec_len(),
            final(self).freq().spec_sample_size() == old(self).freq().spec_sample_size(),
            !old(self).spec_contains(*k) ==> {
                &&& final(self).window() == old(self).window()
                &&& final(self).main_slru().probationary() == old(self).main_slru().probationary()
                &&& final(self).main_slru().protected() == old(self).main_slru().protected()
                &&& final(self).freq() == old(self).freq()
                &&& r is None
            },
            old(self).spec_contains(*k) ==> {
                &&& r is Some
                &&& r->Some_0@ == old(self).spec_value(*k)
                &&& final(self).spec_contains(*k)
                &&& final(self).spec_value(*k) == old(self).spec_value(*k)
                &&& final(self).freq().records() == old(self).freq().records() + 1
                &&& (old(self).freq().recorded_in_sketch(final(self).freq(), *k) || old(
                    self,
                ).freq().admitted_to_doorkeeper(final(self).freq(), *k))
                &&& (old(self).freq().seen().contains(*k) ==> old(self).freq().recorded_in_sketch(
                    final(self).freq(),
                    *k,
                ))
            },
            has_key(old(self).window(), *k) ==> {
                &&& final(self).window() == promote(old(self).window(), *k)
                &&& final(self).main_slru().probationary() == old(self).main_slru().probationary()
                &&& final(self).main_slru().protected() == old(self).main_slru().protected()
            },
            !has_key(old(self).window(), *k) && old(self).main_slru().spec_contains(*k)
                ==> final(self).window() == old(self).window(),
            !has_key(old(self).window(), *k) && has_key(old(self).main_slru().protected(), *k)
                ==> {
                &&& final(self).main_slru().probationary() == old(self).main_slru().probationary()
                &&& final(self).main_slru().protected() == promote(
                    old(self).main_slru().protected(),
                    *k,
                )
            },
            !has_key(old(self).window(), *k) && has_key(old(self).main_slru().probationary(), *k)
                && old(self).main_slru().protected().len() != old(
                self,
            ).main_slru().protected_cap() ==> {
                &&& final(self).main_slru().probationary() == old(
                    self,
                ).main_slru().probationary().remove(
                    index_of_key(old(self).main_slru().probationary(), *k),
                )
                &&& final(self).main_slru().protected() == old(
                    self,
                ).main_slru().protected().insert(
                    0,
                    (*k, value_of(old(self).main_slru().probationary(), *k)),
                )
            },
            !has_key(old(self).window(), *k) && has_key(old(self).main_slru().probationary(), *k)
                && old(self).main_slru().protected().len() == old(
                self,
            ).main_slru().protected_cap() ==> {
                &&& final(self).main_slru().probationary() == old(
                    self,
                ).main_slru().probationary().remove(
                    index_of_key(old(self).main_slru().probationary(), *k),
                ).insert(0, old(self).main_slru().protected().last())
                &&& final(self).main_slru().protected() == old(
                    self,
                ).main_slru().protected().drop_last().insert(
                    0,
                    (*k, value_of(old(self).main_slru().probationary(), *k)),
                )
            },
    {
        self.get(k)
    }

    /// Remove the entry under the key, window first, and return its value.
    pub fn pop(&mut self, k: &u64) -> (r: Option<String>)
        requires
            old(self).wf(),
        ensures
            final(self).wf(),
            final(self).window_cap() == old(self).window_cap(),
            final(self).main_slru().probationary_cap() == old(self).main_slru().probationary_cap(),
            final(self).main_slru().protected_cap() == old(self).main_slru().protected_cap(),
            final(self).freq() == old(self).freq(),
            has_key(old(self).window(), *k) ==> {
                &&& final(self).window() == old(self).window().remove(
                    index_of_key(old(self).window(), *k),
                )
                &&& final(self).main_slru().probationary() == old(self).main_slru().probationary()
                &&& final(self).main_slru().protected() == old(self).main_slru().protected()
            },
            !has_key(old(self).window(), *k) ==> final(self).window() == old(self).window(),
            has_key(old(self).main_slru().probationary(), *k) ==> {
                &&& final(self).main_slru().probationary() == old(
                    self,
                ).main_slru().probationary().remove(
                    index_of_key(old(self).main_slru().probationary(), *k),
                )
                &&& final(self).main_slru().protected() == old(self).main_slru().protected()
            },
            has_key(old(self).main_slru().protected(), *k) ==> {
                &&& final(self).main_slru().protected() == old(
                    self,
                ).main_slru().protected().remove(
                    index_of_key(old(self).main_slru().protected(), *k),
                )
                &&& final(self).main_slru().probationary() == old(self).main_slru().probationary()
            },
            old(self).spec_contains(*k) ==> {
                &&& r is Some
                &&& r->Some_0@ == old(self).spec_value(*k)
                &&& final(self).spec_len() + 1 == old(self).spec_len()
            },
            !old(self).spec_contains(*k) ==> {
                &&& r is None
                &&& final(self).window() == old(self).window()
                &&& final(self).main_slru().probationary() == old(self).main_slru().probationary()
                &&& final(self).main_slru().protected() == old(self).main_slru().protected()
                &&& final(self).spec_len() == old(self).spec_len()
            },
            !final(self).spec_contains(*k),
    {
        let ghost pre = *self;
        let r = match lru_pop(&mut self.window_cache, *k) {
            Some(v) => Some(v),
            None => self.main_cache.pop(k),
        };
        proof {
            if has_key(pre.window(), *k) {
                lemma_index_of_key(pre.window(), *k);
                lemma_remove_at(pre.window(), index_of_key(pre.window(), *k));
            }
        }
        r
    }

    /// Remove the entry under the key, window first, and return the pair.
    pub fn pop_entry(&mut self, k: &u64) -> (r: Option<(u64, String)>)
        requires
            old(self).wf(),
        ensures
            final(self).wf(),
            final(self).window_cap() == old(self).window_cap(),
            final(self).main_slru().probationary_cap() == old(self).main_slru().probationary_cap(),
            final(self).main_slru().protected_cap() == old(self).main_slru().protected_cap(),
            final(self).freq() == old(self).freq(),
            has_key(old(self).window(), *k) ==> {
                &&& final(self).window() == old(self).window().remove(
                    index_of_key(old(self).window(), *k),
                )
                &&& final(self).main_slru().probationary() == old(self).main_slru().probationary()
                &&& final(self).main_slru().protected() == old(self).main_slru().protected()
            },
            !has_key(old(self).window(), *k) ==> final(self).window() == old(self).window(),
            has_key(old(self).main_slru().probationary(), *k) ==> {
                &&& final(self).main_slru().probationary() == old(
                    self,
                ).main_slru().probationary().remove(
                    index_of_key(old(self).main_slru().probationary(), *k),
                )
                &&& final(self).main_slru().protected() == old(self).main_slru().protected()
            },
            has_key(old(self).main_slru().protected(), *k) ==> {
                &&& final(self).main_slru().protected() == old(
                    self,
                ).main_slru().protected().remove(
                    index_of_key(old(self).main_slru().protected(), *k),
                )
                &&& final(self).main_slru().probationary() == old(self).main_slru().probationary()
            },
            old(self).spec_contains(*k) ==> {
                &&& r is Some
                &&& r->Some_0.0 == *k
                &&& r->Some_0.1@ == old(self).spec_value(*k)
                &&& final(self).spec_len() + 1 == old(self).spec_len()
            },
            !old(self).spec_contains(*k) ==> {
                &&& r is None
                &&& final(self).window() == old(self).window()
                &&& final(self).main_slru().probationary() == old(self).main_slru().probationary()
                &&& final(self).main_slru().protected() == old(self).main_slru().protected()
                &&& final(self).spec_len() == old(self).spec_len()
            },
            !final(self).spec_contains(*k),
    {
        let ghost pre = *self;
        let r = match lru_pop_entry(&mut self.window_cache, *k) {
            Some(p) => Some(p),
            None => self.main_cache.pop_entry(k),
        };
        proof {
            if has_key(pre.window(), *k) {
                lemma_index_of_key(pre.window(), *k);
                lemma_remove_at(pre.window(), index_of_key(pre.window(), *k));
            }
        }
        r
    }

    /// Recompute the split for a new overall bound and shrink every sub-cache
    /// to it, discarding least recently used entries that no longer fit. The
    /// frequency estimator keeps its history.
    pub fn resize(&mut self, cap: usize)
        requires
            old(self).wf(),
            1 <= cap <= usize::MAX / 4,
        ensures
            final(self).wf(),
            final(self).freq() == old(self).freq(),
            final(self).window_cap() == spec_window_cap(cap as int),
            final(self).main_slru().probationary_cap() == spec_probationary_cap(
                spec_main_cap(cap as int),
            ),
            final(self).main_slru().protected_cap() == spec_protected_cap(
                spec_main_cap(cap as int),
            ),
            cap <= final(self).spec_cap() <= cap + 2,
            final(self).window() == old(self).window().take(
                if old(self).window().len() <= spec_window_cap(cap as int) {
                    old(self).window().len() as int
                } else {
                    spec_window_cap(cap as int)
                },
            ),
            final(self).main_slru().probationary() == old(self).main_slru().probationary().take(
                if old(self).main_slru().probationary().len() <= spec_probationary_cap(
                    spec_main_cap(cap as int),
                ) {
                    old(self).main_slru().probationary().len() as int
                } else {
                    spec_probationary_cap(spec_main_cap(cap as int))
                },
            ),
            final(self).main_slru().protected() == old(self).main_slru().protected().take(
                if old(self).main_slru().protected().len() <= spec_protected_cap(
                    spec_main_cap(cap as int),
                ) {
                    old(self).main_slru().protected().len() as int
                } else {
                    spec_protected_cap(spec_main_cap(cap as int))
                },
            ),
    {
        let ghost pre = *self;
        let hundredth: usize = cap / 100;
        let window_cap: usize = if hundredth < 1 {
            1
        } else {
            hundredth
        };
        let rest: usize = cap - window_cap;
        let main_cap: usize = if rest < 1 {
            1
        } else {
            rest
        };
        lru_resize(&mut self.window_cache, window_cap);
        self.main_cache.resize(main_cap);
        proof {
            let w = pre.window();
            lemma_take(
                w,
                if w.len() <= window_cap {
                    w.len() as int
                } else {
                    window_cap as int
                },
            );
            let prob = pre.main_slru().probationary();
            let prot = pre.main_slru().protected();
            lemma_take(
                prob,
                if prob.len() <= spec_probationary_cap(main_cap as int) {
                    prob.len() as int
                } else {
                    spec_probationary_cap(main_cap as int)
                },
            );
            lemma_take(
                prot,
                if prot.len() <= spec_protected_cap(main_cap as int) {
                    prot.len() as int
                } else {
                    spec_protected_cap(main_cap as int)
                },
            );
        }
    }

    /// Every pair in iteration order: the window in recency order first, then
    /// the main cache, probationary before protected.
    pub fn iter(&self) -> (r: Vec<(u64, String)>)
        ensures
            r@.len() == self.all_entries().len(),
            forall|i: int|
                0 <= i < r@.len() ==> #[trigger] r@[i].0 == self.all_entries()[i].0 && r@[i].1@
                    == self.all_entries()[i].1,
    {
        let mut out = lru_entries(&self.window_cache);
        let mut rest = self.main_cache.iter();
        let ghost outv = out@;
        let ghost restv = rest@;
        out.append(&mut rest);
        proof {
            assert(out@ == outv + restv);
            assert forall|i: int|
                0 <= i < out@.len() implies #[trigger] out@[i].0 == self.all_entries()[i].0
                && out@[i].1@ == self.all_entries()[i].1 by {
                let w = self.window();
                let prob = self.main_slru().probationary();
                let prot = self.main_slru().protected();
                if i < w.len() {
                    assert(out@[i] == outv[i]);
                    assert(self.all_entries()[i] == w[i]);
                } else if i < w.len() + prob.len() {
                    assert(out@[i] == restv[i - w.len()]);
                    assert(self.all_entries()[i] == prob[i - w.len()]);
                } else {
                    assert(out@[i] == restv[i - w.len()]);
                    assert(self.all_entries()[i] == prot[i - w.len() - prob.len()]);
                }
            }
        }
        out
    }
}

/// The spec-level image of a returned pair.
pub open spec fn entry_of(p: (u64, String)) -> Entry {
    (p.0, p.1@)
}

/// The spec-level image of a returned eviction.
pub open spec fn evicted_of(r: Option<(u64, String)>) -> Option<Entry> {
    match r {
        Some(p) => Some(entry_of(p)),
        None => None,
    }
}

/// What the admission contest leaves behind once the window has displaced the
/// candidate `e`. Without a full probationary segment there is no victim and
/// `e` enters the main cache outright. Against a victim, the candidate is
/// admitted only on strictly greater estimated frequency, displacing the
/// probationary LRU pair, which becomes the eviction; on a tie or less the
/// incumbent stays, the main cache is untouched and `e` itself is the
/// eviction.
pub open spec fn admission_outcome(
    pre: SlruCache,
    post: SlruCache,
    e: Entry,
    ev: Option<Entry>,
) -> bool {
    if pre.probationary().len() != pre.probationary_cap() {
        &&& post.probationary() == pre.probationary().insert(0, e)
        &&& post.protected() == pre.protected()
        &&& ev is None
    } else {
        ||| {
            &&& post.probationary() == pre.probationary().drop_last().insert(0, e)
            &&& post.protected() == pre.protected()
            &&& ev == Some(pre.probationary().last())
        }
        ||| {
            &&& post.probationary() == pre.probationary()
            &&& post.protected() == pre.protected()
            &&& ev == Some(e)
        }
    }
}

/// Everything one `push` may do: update in place when the key is present;
/// otherwise insert into the window, and when the window displaces its LRU
/// pair, run the admission contest on it.
pub open spec fn push_outcome(
    pre: WTinyLfuCache,
    post: WTinyLfuCache,
    k: u64,
    v: Seq<char>,
    ev: Option<Entry>,
) -> bool {
    if has_key(pre.window(), k) {
        &&& post.window() == update_front(pre.window(), k, v)
        &&& post.main_slru().probationary() == pre.main_slru().probationary()
        &&& post.main_slru().protected() == pre.main_slru().protected()
        &&& ev == Some((k, value_of(pre.window(), k)))
    } else if pre.main_slru().spec_contains(k) {
        &&& post.window() == pre.window()
        &&& (has_key(pre.main_slru().probationary(), k) ==> post.main_slru().probationary()
            == update_front(pre.main_slru().probationary(), k, v) && post.main_slru().protected()
            == pre.main_slru().protected())
        &&& (has_key(pre.main_slru().protected(), k) ==> post.main_slru().protected()
            == update_front(pre.main_slru().protected(), k, v) && post.main_slru().probationary()
            == pre.main_slru().probationary())
        &&& ev == Some((k, pre.main_slru().spec_value(k)))
    } else if pre.window().len() != pre.window_cap() {
        &&& post.window() == pre.window().insert(0, (k, v))
        &&& post.main_slru().probationary() == pre.main_slru().probationary()
        &&& post.main_slru().protected() == pre.main_slru().protected()
        &&& ev is None
    } else {
        &&& post.window() == pre.window().drop_last().insert(0, (k, v))
        &&& admission_outcome(pre.main_slru(), post.main_slru(), pre.window().last(), ev)
    }
}

/// The cache never holds more entries than its bound allows.
pub proof fn lemma_len_within_cap(c: WTinyLfuCache)
    requires
        c.wf(),
    ensures
        c.spec_len() <= c.spec_cap(),
{
}

/// No key appears in more than one sub-cache.
pub proof fn lemma_key_in_at_most_one_sub_cache(c: WTinyLfuCache, k: u64)
    requires
        c.wf(),
    ensures
        has_key(c.window(), k) ==> !has_key(c.main_slru().probationary(), k) && !has_key(
            c.main_slru().protected(),
            k,
        ),
        has_key(c.main_slru().probationary(), k) ==> !has_key(c.window(), k) && !has_key(
            c.main_slru().protected(),
            k,
        ),
        has_key(c.main_slru().protected(), k) ==> !has_key(c.window(), k) && !has_key(
            c.main_slru().probationary(),
            k,
        ),
{
}

/// Scan resistance: a `push` of a key the cache does not hold never touches
/// the protected segment, whatever the admission contest decides, so
/// protected residents survive an arbitrarily long stream of one-shot
/// insertions.
pub proof fn lemma_push_preserves_protected(
    pre: WTinyLfuCache,
    post: WTinyLfuCache,
    k: u64,
    v: Seq<char>,
    ev: Option<Entry>,
)
    requires
        !pre.spec_contains(k),
        push_outcome(pre, post, k, v, ev),
    ensures
        post.main_slru().protected() == pre.main_slru().protected(),
{
}

/// Iteration yields each present key exactly once: the concatenation of the
/// three sub-caches carries no key twice, and carries exactly the keys the
/// cache contains.
pub proof fn lemma_iteration_keys_unique(c: WTinyLfuCache)
    requires
        c.wf(),
    ensures
        distinct_keys(c.all_entries()),
        forall|k: u64| #[trigger] has_key(c.all_entries(), k) <==> c.spec_contains(k),
{
    let w = c.window();
    let prob = c.main_slru().probationary();
    let prot = c.main_slru().protected();
    crate::model::lemma_concat_distinct(w, prob);
    assert forall|k: u64| has_key(w + prob, k) implies !has_key(prot, k) by {}
    crate::model::lemma_concat_distinct(w + prob, prot);
    assert(c.all_entries() == w + prob + prot);
}

} // verus!
