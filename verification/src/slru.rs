//! The segmented main cache: a probationary and a protected LRU segment with
//! disjoint key sets. New entries start probationary; a hit promotes an entry
//! into the protected segment, whose own overflow falls back to probationary.

use crate::lru_store::{
    lru_cap, lru_cap_of, lru_clear, lru_contains, lru_entries, lru_get, lru_len, lru_new,
    lru_peek, lru_peek_lru, lru_pop, lru_pop_entry, lru_pop_lru, lru_push, lru_resize, lru_seq,
};
use crate::model::{
    disjoint_keys, distinct_keys, has_key, index_of_key, lemma_drop_last, lemma_index_of_key,
    lemma_insert_front, lemma_key_unique, lemma_promote, lemma_promote_front, lemma_remove_at,
    lemma_take, lemma_update_front, promote, update_front, value_of, Entry,
};
use lru::LruCache;
use vstd::prelude::*;

verus! {

/// The probationary bound for a segmented cache of `cap` entries: a fifth of
/// the whole, and at least one.
pub open spec fn spec_probationary_cap(cap: int) -> int {
    if cap / 5 < 1 {
        1
    } else {
        cap / 5
    }
}

/// The protected bound: what the probationary bound leaves over, and at least
/// one.
pub open spec fn spec_protected_cap(cap: int) -> int {
    if cap - spec_probationary_cap(cap) < 1 {
        1
    } else {
        cap - spec_probationary_cap(cap)
    }
}

pub struct SlruCache {
    probationary_segment: LruCache<u64, String>,
    protected_segment: LruCache<u64, String>,
}

impl SlruCache {
    /// The probationary entries, most recently used first.
    pub closed spec fn probationary(self) -> Seq<Entry> {
        lru_seq(self.probationary_segment)
    }

    /// The protected entries, most recently used first.
    pub closed spec fn protected(self) -> Seq<Entry> {
        lru_seq(self.protected_segment)
    }

    pub closed spec fn probationary_cap(self) -> nat {
        lru_cap(self.probationary_segment)
    }

    pub closed spec fn protected_cap(self) -> nat {
        lru_cap(self.protected_segment)
    }

    pub open spec fn wf(self) -> bool {
        &&& distinct_keys(self.probationary())
        &&& distinct_keys(self.protected())
        &&& disjoint_keys(self.probationary(), self.protected())
        &&& self.probationary().len() <= self.probationary_cap()
        &&& self.protected().len() <= self.protected_cap()
        &&& 1 <= self.probationary_cap()
        &&& 1 <= self.protected_cap()
        &&& self.probationary_cap() + self.protected_cap() <= usize::MAX
    }

    pub open spec fn spec_contains(self, k: u64) -> bool {
        has_key(self.probationary(), k) || has_key(self.protected(), k)
    }

    /// The value stored under `k`, looked up probationary first.
    pub open spec fn spec_value(self, k: u64) -> Seq<char> {
        if has_key(self.probationary(), k) {
            value_of(self.probationary(), k)
        } else {
            value_of(self.protected(), k)
        }
    }

    pub open spec fn spec_len(self) -> nat {
        self.probationary().len() + self.protected().len()
    }

    pub open spec fn spec_cap(self) -> nat {
        self.probationary_cap() + self.protected_cap()
    }

    /// An empty segmented cache for about `cap` entries, split a fifth
    /// probationary and the rest protected, each segment at least one wide.
    pub fn new(cap: usize) -> (r: SlruCache)
        requires
            1 <= cap <= usize::MAX / 2,
        ensures
            r.wf(),
            r.probationary_cap() == spec_probationary_cap(cap as int),
            r.protected_cap() == spec_protected_cap(cap as int),
            r.probationary() == Seq::<Entry>::empty(),
            r.protected() == Seq::<Entry>::empty(),
    {
        let fifth: usize = cap / 5;
        let probationary_cap: usize = if fifth < 1 {
            1
        } else {
            fifth
        };
        let rest: usize = cap - probationary_cap;
        let protected_cap: usize = if rest < 1 {
            1
        } else {
            rest
        };
        SlruCache {
            probationary_segment: lru_new(probationary_cap),
            protected_segment: lru_new(protected_cap),
        }
    }

    /// Whether some segment holds the key.
    pub fn contains(&self, k: &u64) -> (r: bool)
        ensures
            r == self.spec_contains(*k),
    {
        if lru_contains(&self.probationary_segment, *k) {
            true
        } else {
            lru_contains(&self.protected_segment, *k)
        }
    }

    /// Insert or update: a present key is updated and promoted within its own
    /// segment and its old value returned; a new key enters the probationary
    /// segment, silently displacing the probationary LRU entry when full.
    pub fn put(&mut self, k: u64, v: String) -> (r: Option<String>)
        requires
            old(self).wf(),
        ensures
            final(self).wf(),
            final(self).probationary_cap() == old(self).probationary_cap(),
            final(self).protected_cap() == old(self).protected_cap(),
            has_key(old(self).probationary(), k) ==> {
                &&& final(self).probationary() == update_front(old(self).probationary(), k, v@)
                &&& final(self).protected() == old(self).protected()
            },
            has_key(old(self).protected(), k) ==> {
                &&& final(self).protected() == update_front(old(self).protected(), k, v@)
                &&& final(self).probationary() == old(self).probationary()
            },
            old(self).spec_contains(k) ==> {
                &&& r is Some
                &&& r->Some_0@ == old(self).spec_value(k)
                &&& final(self).spec_len() == old(self).spec_len()
            },
            !old(self).spec_contains(k) ==> {
                &&& r is None
                &&& final(self).protected() == old(self).protected()
                &&& final(self).probationary() == (if old(self).probationary().len() != old(
                    self,
                ).probationary_cap() {
                    old(self).probationary().insert(0, (k, v@))
                } else {
                    old(self).probationary().drop_last().insert(0, (k, v@))
                })
            },
            final(self).spec_contains(k),
            final(self).spec_value(k) == v@,
    {
        let ghost prob = self.probationary();
        let ghost prot = self.protected();
        if lru_contains(&self.probationary_segment, k) {
            let r = lru_push(&mut self.probationary_segment, k, v);
            proof {
                lemma_update_front(prob, k, v@);
            }
            return match r {
                Some(p) => Some(p.1),
                None => None,
            };
        }
        if lru_contains(&self.protected_segment, k) {
            let r = lru_push(&mut self.protected_segment, k, v);
            proof {
                lemma_update_front(prot, k, v@);
            }
            return match r {
                Some(p) => Some(p.1),
                None => None,
            };
        }
        let _displaced = lru_push(&mut self.probationary_segment, k, v);
        proof {
            if prob.len() != self.probationary_cap() {
                lemma_insert_front(prob, (k, v@));
            } else {
                lemma_drop_last(prob);
                lemma_insert_front(prob.drop_last(), (k, v@));
            }
        }
        None
    }

    /// Like `put`, but a displaced probationary pair is handed back.
    pub fn push(&mut self, k: u64, v: String) -> (r: Option<(u64, String)>)
        requires
            old(self).wf(),
        ensures
            final(self).wf(),
            final(self).probationary_cap() == old(self).probationary_cap(),
            final(self).protected_cap() == old(self).protected_cap(),
            has_key(old(self).probationary(), k) ==> {
                &&& final(self).probationary() == update_front(old(self).probationary(), k, v@)
                &&& final(self).protected() == old(self).protected()
            },
            has_key(old(self).protected(), k) ==> {
                &&& final(self).protected() == update_front(old(self).protected(), k, v@)
                &&& final(self).probationary() == old(self).probationary()
            },
            old(self).spec_contains(k) ==> {
                &&& r is Some
                &&& r->Some_0.0 == k
                &&& r->Some_0.1@ == old(self).spec_value(k)
                &&& final(self).spec_len() == old(self).spec_len()
            },
            !old(self).spec_contains(k) && old(self).probationary().len() != old(
                self,
            ).probationary_cap() ==> {
                &&& r is None
                &&& final(self).probationary() == old(self).probationary().insert(0, (k, v@))
                &&& final(self).protected() == old(self).protected()
            },
            !old(self).spec_contains(k) && old(self).probationary().len() == old(
                self,
            ).probationary_cap() ==> {
                &&& r is Some
                &&& r->Some_0.0 == old(self).probationary().last().0
                &&& r->Some_0.1@ == old(self).probationary().last().1
                &&& final(self).probationary() == old(self).probationary().drop_last().insert(
                    0,
                    (k, v@),
                )
                &&& final(self).protected() == old(self).protected()
            },
            final(self).spec_contains(k),
            final(self).spec_value(k) == v@,
    {
        let ghost prob = self.probationary();
        let ghost prot = self.protected();
        if lru_contains(&self.probationary_segment, k) {
            let r = lru_push(&mut self.probationary_segment, k, v);
            proof {
                lemma_update_front(prob, k, v@);
            }
            return r;
        }
        if lru_contains(&self.protected_segment, k) {
            let r = lru_push(&mut self.protected_segment, k, v);
            proof {
                lemma_update_front(prot, k, v@);
            }
            return r;
        }
        let r = lru_push(&mut self.probationary_segment, k, v);
        proof {
            if prob.len() != self.probationary_cap() {
                lemma_insert_front(prob, (k, v@));
            } else {
                lemma_drop_last(prob);
                lemma_insert_front(prob.drop_last(), (k, v@));
            }
        }
        r
    }

    /// A hit promotes. A probationary entry moves to the front of the
    /// protected segment; if that displaces the protected LRU pair, the
    /// displaced pair re-enters the probationary segment at the front. A
    /// protected entry is promoted within its segment. The hit's value is
    /// handed out; a miss changes nothing.
    pub fn get(&mut self, k: &u64) -> (r: Option<String>)
        requires
            old(self).wf(),
        ensures
            final(self).wf(),
            final(self).probationary_cap() == old(self).probationary_cap(),
            final(self).protected_cap() == old(self).protected_cap(),
            final(self).spec_len() == old(self).spec_len(),
            !old(self).spec_contains(*k) ==> {
                &&& final(self).probationary() == old(self).probationary()
                &&& final(self).protected() == old(self).protected()
                &&& r is None
            },
            old(self).spec_contains(*k) ==> {
                &&& r is Some
                &&& r->Some_0@ == old(self).spec_value(*k)
            },
            has_key(old(self).protected(), *k) ==> {
                &&& final(self).probationary() == old(self).probationary()
                &&& final(self).protected() == promote(old(self).protected(), *k)
            },
            has_key(old(self).probationary(), *k) && old(self).protected().len() != old(
                self,
            ).protected_cap() ==> {
                &&& final(self).probationary() == old(self).probationary().remove(
                    index_of_key(old(self).probationary(), *k),
                )
                &&& final(self).protected() == old(self).protected().insert(
                    0,
                    (*k, value_of(old(self).probationary(), *k)),
                )
            },
            has_key(old(self).probationary(), *k) && old(self).protected().len() == old(
                self,
            ).protected_cap() ==> {
                &&& final(self).probationary() == old(self).probationary().remove(
                    index_of_key(old(self).probationary(), *k),
                ).insert(0, old(self).protected().last())
                &&& final(self).protected() == old(self).protected().drop_last().insert(
                    0,
                    (*k, value_of(old(self).probationary(), *k)),
                )
            },
            old(self).spec_contains(*k) ==> {
                &&& final(self).spec_contains(*k)
                &&& final(self).spec_value(*k) == old(self).spec_value(*k)
            },
    {
        let ghost prob = self.probationary();
        let ghost prot = self.protected();
        if let Some(pe) = lru_pop_entry(&mut self.probationary_segment, *k) {
            proof {
                lemma_index_of_key(prob, *k);
                lemma_remove_at(prob, index_of_key(prob, *k));
            }
            let (kk, vv) = pe;
            let ghost moved = (kk, vv@);
            if let Some(ev) = lru_push(&mut self.protected_segment, kk, vv) {
                proof {
                    lemma_drop_last(prot);
                    lemma_insert_front(prot.drop_last(), moved);
                    assert((ev.0, ev.1@) == prot.last());
                }
                let _displaced = lru_push(&mut self.probationary_segment, ev.0, ev.1);
                proof {
                    lemma_insert_front(prob.remove(index_of_key(prob, *k)), (ev.0, ev.1@));
                }
            } else {
                proof {
                    lemma_insert_front(prot, moved);
                }
            }
        }
        let ghost prot2 = self.protected();
        let r = lru_get(&mut self.protected_segment, *k);
        proof {
            if has_key(prob, *k) {
                lemma_key_unique(prot2, *k, 0);
                lemma_promote_front(prot2, *k);
            } else if has_key(prot, *k) {
                lemma_promote(prot, *k);
            }
        }
        r
    }

    /// The same promotion as `get`; the name is kept for callers that want a
    /// value they may change and write back with `put`.
    pub fn get_mut(&mut self, k: &u64) -> (r: Option<String>)
        requires
            old(self).wf(),
        ensures
            final(self).wf(),
            final(self).probationary_cap() == old(self).probationary_cap(),
            final(self).protected_cap() == old(self).protected_cap(),
            final(self).spec_len() == old(self).spec_len(),
            !old(self).spec_contains(*k) ==> {
                &&& final(self).probationary() == old(self).probationary()
                &&& final(self).protected() == old(self).protected()
                &&& r is None
            },
            old(self).spec_contains(*k) ==> {
                &&& r is Some
                &&& r->Some_0@ == old(self).spec_value(*k)
            },
            has_key(old(self).protected(), *k) ==> {
                &&& final(self).probationary() == old(self).probationary()
                &&& final(self).protected() == promote(old(self).protected(), *k)
            },
            has_key(old(self).probationary(), *k) && old(self).protected().len() != old(
                self,
            ).protected_cap() ==> {
                &&& final(self).probationary() == old(self).probationary().remove(
                    index_of_key(old(self).probationary(), *k),
                )
                &&& final(self).protected() == old(self).protected().insert(
                    0,
                    (*k, value_of(old(self).probationary(), *k)),
                )
            },
            has_key(old(self).probationary(), *k) && old(self).protected().len() == old(
                self,
            ).protected_cap() ==> {
                &&& final(self).probationary() == old(self).probationary().remove(
                    index_of_key(old(self).probationary(), *k),
                ).insert(0, old(self).protected().last())
                &&& final(self).protected() == old(self).protected().drop_last().insert(
                    0,
                    (*k, value_of(old(self).probationary(), *k)),
                )
            },
            old(self).spec_contains(*k) ==> {
                &&& final(self).spec_contains(*k)
                &&& final(self).spec_value(*k) == old(self).spec_value(*k)
            },
    {
        self.get(k)
    }

    /// The value under the key, probationary first, with no reordering.
    pub fn peek(&self, k: &u64) -> (r: Option<String>)
        ensures
            self.spec_contains(*k) ==> {
                &&& r is Some
                &&& r->Some_0@ == self.spec_value(*k)
            },
            !self.spec_contains(*k) ==> r is None,
    {
        match lru_peek(&self.probationary_segment, *k) {
            Some(v) => Some(v),
            None => lru_peek(&self.protected_segment, *k),
        }
    }

    /// Like `peek`; the name is kept for callers that want a value they may
    /// change and write back with `put`.
    pub fn peek_mut(&mut self, k: &u64) -> (r: Option<String>)
        ensures
            *final(self) == *old(self),
            old(self).spec_contains(*k) ==> {
                &&& r is Some
                &&& r->Some_0@ == old(self).spec_value(*k)
            },
            !old(self).spec_contains(*k) ==> r is None,
    {
        match lru_peek(&self.probationary_segment, *k) {
            Some(v) => Some(v),
            None => lru_peek(&self.protected_segment, *k),
        }
    }

    /// The least recently used pair: probationary's if that segment is
    /// occupied, protected's otherwise.
    pub fn peek_lru(&self) -> (r: Option<(u64, String)>)
        ensures
            self.probationary().len() > 0 ==> {
                &&& r is Some
                &&& r->Some_0.0 == self.probationary().last().0
                &&& r->Some_0.1@ == self.probationary().last().1
            },
            self.probationary().len() == 0 && self.protected().len() > 0 ==> {
                &&& r is Some
                &&& r->Some_0.0 == self.protected().last().0
                &&& r->Some_0.1@ == self.protected().last().1
            },
            self.spec_len() == 0 ==> r is None,
    {
        match lru_peek_lru(&self.probationary_segment) {
            Some(p) => Some(p),
            None => lru_peek_lru(&self.protected_segment),
        }
    }

    /// The probationary LRU pair, but only when the probationary segment sits
    /// at its bound: the victim the admission contest would displace.
    pub fn peek_lru_if_full(&self) -> (r: Option<(u64, String)>)
        requires
            self.wf(),
        ensures
            self.probationary().len() != self.probationary_cap() ==> r is None,
            self.probationary().len() == self.probationary_cap() ==> {
                &&& r is Some
                &&& r->Some_0.0 == self.probationary().last().0
                &&& r->Some_0.1@ == self.probationary().last().1
            },
    {
        if lru_len(&self.probationary_segment) != lru_cap_of(&self.probationary_segment) {
            return None;
        }
        lru_peek_lru(&self.probationary_segment)
    }

    /// Remove the entry under the key, probationary first, and return its
    /// value.
    pub fn pop(&mut self, k: &u64) -> (r: Option<String>)
        requires
            old(self).wf(),
        ensures
            final(self).wf(),
            final(self).probationary_cap() == old(self).probationary_cap(),
            final(self).protected_cap() == old(self).protected_cap(),
            has_key(old(self).probationary(), *k) ==> {
                &&& final(self).probationary() == old(self).probationary().remove(
                    index_of_key(old(self).probationary(), *k),
                )
                &&& final(self).protected() == old(self).protected()
            },
            has_key(old(self).protected(), *k) ==> {
                &&& final(self).protected() == old(self).protected().remove(
                    index_of_key(old(self).protected(), *k),
                )
                &&& final(self).probationary() == old(self).probationary()
            },
            old(self).spec_contains(*k) ==> {
                &&& r is Some
                &&& r->Some_0@ == old(self).spec_value(*k)
                &&& final(self).spec_len() + 1 == old(self).spec_len()
            },
            !old(self).spec_contains(*k) ==> {
                &&& r is None
                &&& final(self).probationary() == old(self).probationary()
                &&& final(self).protected() == old(self).protected()
            },
            !final(self).spec_contains(*k),
    {
        let ghost prob = self.probationary();
        let ghost prot = self.protected();
        let r = match lru_pop(&mut self.probationary_segment, *k) {
            Some(v) => Some(v),
            None => lru_pop(&mut self.protected_segment, *k),
        };
        proof {
            if has_key(prob, *k) {
                lemma_index_of_key(prob, *k);
                lemma_remove_at(prob, index_of_key(prob, *k));
            } else if has_key(prot, *k) {
                lemma_index_of_key(prot, *k);
                lemma_remove_at(prot, index_of_key(prot, *k));
            }
        }
        r
    }

    /// Remove the entry under the key, probationary first, and return the
    /// pair.
    pub fn pop_entry(&mut self, k: &u64) -> (r: Option<(u64, String)>)
        requires
            old(self).wf(),
        ensures
            final(self).wf(),
            final(self).probationary_cap() == old(self).probationary_cap(),
            final(self).protected_cap() == old(self).protected_cap(),
            has_key(old(self).probationary(), *k) ==> {
                &&& final(self).probationary() == old(self).probationary().remove(
                    index_of_key(old(self).probationary(), *k),
                )
                &&& final(self).protected() == old(self).protected()
            },
            has_key(old(self).protected(), *k) ==> {
                &&& final(self).protected() == old(self).protected().remove(
                    index_of_key(old(self).protected(), *k),
                )
                &&& final(self).probationary() == old(self).probationary()
            },
            old(self).spec_contains(*k) ==> {
                &&& r is Some
                &&& r->Some_0.0 == *k
                &&& r->Some_0.1@ == old(self).spec_value(*k)
                &&& final(self).spec_len() + 1 == old(self).spec_len()
            },
            !old(self).spec_contains(*k) ==> {
                &&& r is None
                &&& final(self).probationary() == old(self).probationary()
                &&& final(self).protected() == old(self).protected()
            },
            !final(self).spec_contains(*k),
    {
        let ghost prob = self.probationary();
        let ghost prot = self.protected();
        let r = match lru_pop_entry(&mut self.probationary_segment, *k) {
            Some(p) => Some(p),
            None => lru_pop_entry(&mut self.protected_segment, *k),
        };
        proof {
            if has_key(prob, *k) {
                lemma_index_of_key(prob, *k);
                lemma_remove_at(prob, index_of_key(prob, *k));
            } else if has_key(prot, *k) {
                lemma_index_of_key(prot, *k);
                lemma_remove_at(prot, index_of_key(prot, *k));
            }
        }
        r
    }

    /// Remove and return the least recently used pair, probationary first.
    pub fn pop_lru(&mut self) -> (r: Option<(u64, String)>)
        requires
            old(self).wf(),
        ensures
            final(self).wf(),
            final(self).probationary_cap() == old(self).probationary_cap(),
            final(self).protected_cap() == old(self).protected_cap(),
            old(self).probationary().len() > 0 ==> {
                &&& final(self).probationary() == old(self).probationary().drop_last()
                &&& final(self).protected() == old(self).protected()
                &&& r is Some
                &&& r->Some_0.0 == old(self).probationary().last().0
                &&& r->Some_0.1@ == old(self).probationary().last().1
            },
            old(self).probationary().len() == 0 && old(self).protected().len() > 0 ==> {
                &&& final(self).probationary() == old(self).probationary()
                &&& final(self).protected() == old(self).protected().drop_last()
                &&& r is Some
                &&& r->Some_0.0 == old(self).protected().last().0
                &&& r->Some_0.1@ == old(self).protected().last().1
            },
            old(self).spec_len() == 0 ==> {
                &&& final(self).probationary() == old(self).probationary()
                &&& final(self).protected() == old(self).protected()
                &&& r is None
            },
    {
        let ghost prob = self.probationary();
        let ghost prot = self.protected();
        let r = match lru_pop_lru(&mut self.probationary_segment) {
            Some(p) => Some(p),
            None => lru_pop_lru(&mut self.protected_segment),
        };
        proof {
            if prob.len() > 0 {
                lemma_drop_last(prob);
            } else if prot.len() > 0 {
                lemma_drop_last(prot);
            }
        }
        r
    }

    /// Recompute the split for a new overall bound and shrink each segment to
    /// it, discarding least recently used entries that no longer fit.
    pub fn resize(&mut self, cap: usize)
        requires
            old(self).wf(),
            1 <= cap <= usize::MAX / 2,
        ensures
            final(self).wf(),
            final(self).probationary_cap() == spec_probationary_cap(cap as int),
            final(self).protected_cap() == spec_protected_cap(cap as int),
            final(self).probationary() == old(self).probationary().take(
                if old(self).probationary().len() <= spec_probationary_cap(cap as int) {
                    old(self).probationary().len() as int
                } else {
                    spec_probationary_cap(cap as int)
                },
            ),
            final(self).protected() == old(self).protected().take(
                if old(self).protected().len() <= spec_protected_cap(cap as int) {
                    old(self).protected().len() as int
                } else {
                    spec_protected_cap(cap as int)
                },
            ),
    {
        let ghost prob = self.probationary();
        let ghost prot = self.protected();
        let fifth: usize = cap / 5;
        let probationary_cap: usize = if fifth < 1 {
            1
        } else {
            fifth
        };
        let rest: usize = cap - probationary_cap;
        let protected_cap: usize = if rest < 1 {
            1
        } else {
            rest
        };
        lru_resize(&mut self.probationary_segment, probationary_cap);
        lru_resize(&mut self.protected_segment, protected_cap);
        proof {
            lemma_take(
                prob,
                if prob.len() <= probationary_cap {
                    prob.len() as int
                } else {
                    probationary_cap as int
                },
            );
            lemma_take(
                prot,
                if prot.len() <= protected_cap {
                    prot.len() as int
                } else {
                    protected_cap as int
                },
            );
        }
    }

    /// Every pair, probationary entries in recency order first, then
    /// protected ones.
    pub fn iter(&self) -> (r: Vec<(u64, String)>)
        ensures
            r@.len() == self.spec_len(),
            forall|i: int|
                0 <= i < self.probationary().len() ==> #[trigger] r@[i].0
                    == self.probationary()[i].0 && r@[i].1@ == self.probationary()[i].1,
            forall|i: int|
                self.probationary().len() <= i < self.spec_len() ==> #[trigger] r@[i].0
                    == self.protected()[i - self.probationary().len()].0 && r@[i].1@
                    == self.protected()[i - self.probationary().len()].1,
    {
        let mut out = lru_entries(&self.probationary_segment);
        let mut rest = lru_entries(&self.protected_segment);
        out.append(&mut rest);
        out
    }

    /// The number of entries across both segments.
    pub fn len(&self) -> (r: usize)
        requires
            self.wf(),
        ensures
            r as nat == self.spec_len(),
    {
        lru_len(&self.probationary_segment) + lru_len(&self.protected_segment)
    }

    /// The bound across both segments.
    pub fn cap(&self) -> (r: usize)
        requires
            self.wf(),
        ensures
            r as nat == self.spec_cap(),
    {
        lru_cap_of(&self.probationary_segment) + lru_cap_of(&self.protected_segment)
    }

    /// Drop every entry; the bounds are kept.
    pub fn clear(&mut self)
        requires
            old(self).wf(),
        ensures
            final(self).wf(),
            final(self).probationary_cap() == old(self).probationary_cap(),
            final(self).protected_cap() == old(self).protected_cap(),
            final(self).probationary() == Seq::<Entry>::empty(),
            final(self).protected() == Seq::<Entry>::empty(),
    {
        lru_clear(&mut self.probationary_segment);
        lru_clear(&mut self.protected_segment);
    }
}

} // verus!
