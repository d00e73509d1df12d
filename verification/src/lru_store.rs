//! Trusted surface over `lru::LruCache`, the bounded LRU list that backs the
//! window cache and both main-cache segments.
//!
//! The store is modelled by two uninterpreted names: `lru_seq`, the entries in
//! most-recently-used-first order, and `lru_cap`, the bound the cache was made
//! with. Each wrapper states, over those names, exactly what the crate's
//! source shows for the one method it calls.

use crate::model::{has_key, index_of_key, promote, update_front, value_of, Entry};
use lru::LruCache;
use std::num::NonZeroUsize;
use vstd::prelude::*;

verus! {

#[verifier::external_type_specification]
#[verifier::external_body]
#[verifier::reject_recursive_types(K)]
#[verifier::reject_recursive_types(V)]
#[verifier::reject_recursive_types(S)]
pub struct ExLruCache<K, V, S>(LruCache<K, V, S>);

/// The entries of the cache, most recently used first.
pub uninterp spec fn lru_seq(c: LruCache<u64, String>) -> Seq<Entry>;

/// The bound the cache was created or last resized with.
pub uninterp spec fn lru_cap(c: LruCache<u64, String>) -> nat;

/// Relies on `LruCache::new`: an empty cache that holds at most `cap` entries.
#[verifier::external_body]
pub(crate) fn lru_new(cap: usize) -> (r: LruCache<u64, String>)
    requires
        cap >= 1,
    ensures
        lru_seq(r) == Seq::<Entry>::empty(),
        lru_cap(r) == cap as nat,
{
    LruCache::new(NonZeroUsize::new(cap).unwrap())
}

/// Relies on `LruCache::len`: the number of stored entries.
#[verifier::external_body]
pub(crate) fn lru_len(c: &LruCache<u64, String>) -> (r: usize)
    ensures
        r as nat == lru_seq(*c).len(),
{
    c.len()
}

/// Relies on `LruCache::cap`: the bound given at creation or last resize.
#[verifier::external_body]
pub(crate) fn lru_cap_of(c: &LruCache<u64, String>) -> (r: usize)
    ensures
        r as nat == lru_cap(*c),
{
    c.cap().get()
}

/// Relies on `LruCache::contains`: whether an entry carries the key.
#[verifier::external_body]
pub(crate) fn lru_contains(c: &LruCache<u64, String>, k: u64) -> (r: bool)
    ensures
        r == has_key(lru_seq(*c), k),
{
    c.contains(&k)
}

/// Relies on `LruCache::push`: update-and-promote when the key is present
/// (returning the old pair), insert at the front otherwise, displacing the
/// least recently used pair when the cache already sits at its bound.
#[verifier::external_body]
pub(crate) fn lru_push(c: &mut LruCache<u64, String>, k: u64, v: String) -> (r: Option<
    (u64, String),
>)
    ensures
        lru_cap(*final(c)) == lru_cap(*old(c)),
        has_key(lru_seq(*old(c)), k) ==> {
            &&& lru_seq(*final(c)) == update_front(lru_seq(*old(c)), k, v@)
            &&& r matches Some(p) && p.0 == k && p.1@ == value_of(lru_seq(*old(c)), k)
        },
        !has_key(lru_seq(*old(c)), k) && lru_seq(*old(c)).len() != lru_cap(*old(c)) ==> {
            &&& lru_seq(*final(c)) == lru_seq(*old(c)).insert(0, (k, v@))
            &&& r is None
        },
        !has_key(lru_seq(*old(c)), k) && lru_seq(*old(c)).len() == lru_cap(*old(c)) ==> {
            &&& lru_seq(*final(c)) == lru_seq(*old(c)).drop_last().insert(0, (k, v@))
            &&& r matches Some(p) && p.0 == lru_seq(*old(c)).last().0 && p.1@ == lru_seq(
                *old(c),
            ).last().1
        },
{
    c.push(k, v)
}

/// Relies on `LruCache::get`: promote the entry to the front and hand its
/// value out; a cloned copy is returned so that the store keeps ownership.
#[verifier::external_body]
pub(crate) fn lru_get(c: &mut LruCache<u64, String>, k: u64) -> (r: Option<String>)
    ensures
        lru_cap(*final(c)) == lru_cap(*old(c)),
        has_key(lru_seq(*old(c)), k) ==> {
            &&& lru_seq(*final(c)) == promote(lru_seq(*old(c)), k)
            &&& r matches Some(s) && s@ == value_of(lru_seq(*old(c)), k)
        },
        !has_key(lru_seq(*old(c)), k) ==> {
            &&& lru_seq(*final(c)) == lru_seq(*old(c))
            &&& r is None
        },
{
    c.get(&k).cloned()
}

/// Relies on `LruCache::peek`: the value under the key, with no reordering.
#[verifier::external_body]
pub(crate) fn lru_peek(c: &LruCache<u64, String>, k: u64) -> (r: Option<String>)
    ensures
        has_key(lru_seq(*c), k) ==> {
            &&& r is Some
            &&& r->Some_0@ == value_of(lru_seq(*c), k)
        },
        !has_key(lru_seq(*c), k) ==> r is None,
{
    c.peek(&k).cloned()
}

/// Relies on `LruCache::peek_lru`: the least recently used pair, with no
/// reordering.
#[verifier::external_body]
pub(crate) fn lru_peek_lru(c: &LruCache<u64, String>) -> (r: Option<(u64, String)>)
    ensures
        lru_seq(*c).len() == 0 ==> r is None,
        lru_seq(*c).len() > 0 ==> {
            &&& r is Some
            &&& r->Some_0.0 == lru_seq(*c).last().0
            &&& r->Some_0.1@ == lru_seq(*c).last().1
        },
{
    c.peek_lru().map(|(k, v)| (*k, v.clone()))
}

/// Relies on `LruCache::pop`: remove the entry under the key and return its
/// value.
#[verifier::external_body]
pub(crate) fn lru_pop(c: &mut LruCache<u64, String>, k: u64) -> (r: Option<String>)
    ensures
        lru_cap(*final(c)) == lru_cap(*old(c)),
        has_key(lru_seq(*old(c)), k) ==> {
            &&& lru_seq(*final(c)) == lru_seq(*old(c)).remove(
                index_of_key(lru_seq(*old(c)), k),
            )
            &&& r matches Some(s) && s@ == value_of(lru_seq(*old(c)), k)
        },
        !has_key(lru_seq(*old(c)), k) ==> {
            &&& lru_seq(*final(c)) == lru_seq(*old(c))
            &&& r is None
        },
{
    c.pop(&k)
}

/// Relies on `LruCache::pop_entry`: remove the entry under the key and return
/// the pair.
#[verifier::external_body]
pub(crate) fn lru_pop_entry(c: &mut LruCache<u64, String>, k: u64) -> (r: Option<(u64, String)>)
    ensures
        lru_cap(*final(c)) == lru_cap(*old(c)),
        has_key(lru_seq(*old(c)), k) ==> {
            &&& lru_seq(*final(c)) == lru_seq(*old(c)).remove(
                index_of_key(lru_seq(*old(c)), k),
            )
            &&& r matches Some(p) && p.0 == k && p.1@ == value_of(lru_seq(*old(c)), k)
        },
        !has_key(lru_seq(*old(c)), k) ==> {
            &&& lru_seq(*final(c)) == lru_seq(*old(c))
            &&& r is None
        },
{
    c.pop_entry(&k)
}

/// Relies on `LruCache::pop_lru`: remove and return the least recently used
/// pair.
#[verifier::external_body]
pub(crate) fn lru_pop_lru(c: &mut LruCache<u64, String>) -> (r: Option<(u64, String)>)
    ensures
        lru_cap(*final(c)) == lru_cap(*old(c)),
        lru_seq(*old(c)).len() == 0 ==> {
            &&& lru_seq(*final(c)) == lru_seq(*old(c))
            &&& r is None
        },
        lru_seq(*old(c)).len() > 0 ==> {
            &&& lru_seq(*final(c)) == lru_seq(*old(c)).drop_last()
            &&& r matches Some(p) && p.0 == lru_seq(*old(c)).last().0 && p.1@ == lru_seq(
                *old(c),
            ).last().1
        },
{
    c.pop_lru()
}

/// Relies on `LruCache::resize`: set a new bound; the least recently used
/// entries past the new bound are discarded.
#[verifier::external_body]
pub(crate) fn lru_resize(c: &mut LruCache<u64, String>, cap: usize)
    requires
        cap >= 1,
    ensures
        lru_cap(*final(c)) == cap as nat,
        lru_seq(*final(c)) == lru_seq(*old(c)).take(
            if lru_seq(*old(c)).len() <= cap as nat {
                lru_seq(*old(c)).len() as int
            } else {
                cap as int
            },
        ),
{
    c.resize(NonZeroUsize::new(cap).unwrap())
}

/// Relies on `LruCache::clear`: remove every entry; the bound is kept.
#[verifier::external_body]
pub(crate) fn lru_clear(c: &mut LruCache<u64, String>)
    ensures
        lru_cap(*final(c)) == lru_cap(*old(c)),
        lru_seq(*final(c)) == Seq::<Entry>::empty(),
{
    c.clear()
}

/// Relies on `LruCache::iter`: every entry, most recently used first; the
/// pairs are cloned out so that the store keeps ownership.
#[verifier::external_body]
pub(crate) fn lru_entries(c: &LruCache<u64, String>) -> (r: Vec<(u64, String)>)
    ensures
        r@.len() == lru_seq(*c).len(),
        forall|i: int|
            0 <= i < r@.len() ==> #[trigger] r@[i].0 == lru_seq(*c)[i].0 && r@[i].1@ == lru_seq(
                *c,
            )[i].1,
{
    c.iter().map(|(k, v)| (*k, v.clone())).collect()
}

} // verus!
