//! The frequency estimation subsystem: a count-min sketch gated by a Bloom
//! "doorkeeper", aged by a periodic reset.
//!
//! The sketch is modelled by `sketch_counts`, the number of recorded
//! increments per key since the last reset; the doorkeeper by `bloom_keys`,
//! the set of keys inserted since the last reset. A Bloom filter answers
//! membership with possible false positives, so a lookup is only guaranteed
//! to say `true` for keys of that set; which branch a `record` takes is
//! therefore stated as a disjunction over both outcomes.

use bloomfilter::Bloom;
use count_min_sketch::CountMinSketch16;
use vstd::prelude::*;

verus! {

#[verifier::external_type_specification]
#[verifier::external_body]
#[verifier::reject_recursive_types(T)]
pub struct ExBloom<T: ?Sized>(Bloom<T>);

#[verifier::external_type_specification]
#[verifier::external_body]
#[verifier::reject_recursive_types(K)]
pub struct ExCountMinSketch16<K>(CountMinSketch16<K>);

/// The keys inserted into the doorkeeper since it was created or last cleared.
pub uninterp spec fn bloom_keys(b: Bloom<u64>) -> Set<u64>;

/// How often each key was handed to the sketch since it was created or last
/// cleared.
pub uninterp spec fn sketch_counts(s: CountMinSketch16<u64>) -> Map<u64, nat>;

/// The counts of a sketch that has recorded nothing.
pub open spec fn no_counts() -> Map<u64, nat> {
    Map::empty()
}

/// The count recorded for `k`, zero for a key never handed to the sketch.
pub open spec fn count_of(m: Map<u64, nat>, k: u64) -> nat {
    if m.dom().contains(k) {
        m[k]
    } else {
        0
    }
}

/// `m` with the count of `k` one higher.
pub open spec fn bump(m: Map<u64, nat>, k: u64) -> Map<u64, nat> {
    m.insert(k, count_of(m, k) + 1)
}

/// Relies on `Bloom::new`: an empty filter over a `bitmap_bytes`-byte bitmap,
/// sized by the caller for the expected number of items. Construction aborts
/// if the operating system's random source is unavailable, as nothing can be
/// cached without hash keys.
#[verifier::external_body]
pub(crate) fn bloom_new(bitmap_bytes: usize, items: usize) -> (r: Bloom<u64>)
    requires
        1 <= bitmap_bytes <= usize::MAX / 8,
        items >= 1,
    ensures
        bloom_keys(r) == Set::<u64>::empty(),
{
    Bloom::new(bitmap_bytes, items).unwrap()
}

/// Relies on `Bloom::set`: record the presence of a key.
#[verifier::external_body]
pub(crate) fn bloom_set(b: &mut Bloom<u64>, k: u64)
    ensures
        bloom_keys(*final(b)) == bloom_keys(*old(b)).insert(k),
{
    b.set(&k)
}

/// Relies on `Bloom::check`: no false negatives; a key that was inserted is
/// always reported present, while any other key may be a false positive. An
/// empty filter has no set bits, so it reports every key absent.
#[verifier::external_body]
pub(crate) fn bloom_check(b: &Bloom<u64>, k: u64) -> (r: bool)
    ensures
        bloom_keys(*b).contains(k) ==> r,
        bloom_keys(*b) == Set::<u64>::empty() ==> !r,
{
    b.check(&k)
}

/// Relies on `Bloom::clear`: remove every key from the filter.
#[verifier::external_body]
pub(crate) fn bloom_clear(b: &mut Bloom<u64>)
    ensures
        bloom_keys(*final(b)) == Set::<u64>::empty(),
{
    b.clear()
}

/// Relies on `CountMinSketch16::new`: a zeroed sketch. The probability and
/// tolerance arguments are the fixed configuration 97/100 and 4; they reach
/// the call parsed out of strings because Verus sources cannot hold
/// floating-point literals. With them the sketch keeps one 16-bit counter row
/// per hash function, about `capacity / 2` counters wide. Construction aborts
/// if the operating system's random source is unavailable, as the sketch
/// cannot hash without a key.
#[verifier::external_body]
pub(crate) fn sketch_new(capacity: usize) -> (r: CountMinSketch16<u64>)
    requires
        1 <= capacity <= usize::MAX / 8,
    ensures
        sketch_counts(r) == no_counts(),
{
    CountMinSketch16::new(capacity, "0.97".parse().unwrap(), "4.0".parse().unwrap()).unwrap()
}

/// Relies on `CountMinSketch16::increment`: counters only move up, by a
/// saturating add, so the recorded count of the key rises by one.
#[verifier::external_body]
pub(crate) fn sketch_increment(s: &mut CountMinSketch16<u64>, k: u64)
    ensures
        sketch_counts(*final(s)) == bump(sketch_counts(*old(s)), k),
{
    s.increment(&k)
}

/// Relies on `CountMinSketch16::estimate`: the smallest counter the key hashes
/// to. Counters only ever grow under increments, so the estimate never falls
/// below the recorded count, up to counter saturation; hash collisions can
/// only push it higher. With nothing recorded since creation or the last
/// wipe, every counter is zero and so is every estimate.
#[verifier::external_body]
pub(crate) fn sketch_estimate(s: &CountMinSketch16<u64>, k: u64) -> (r: u16)
    ensures
        count_of(sketch_counts(*s), k) <= u16::MAX ==> r >= count_of(sketch_counts(*s), k),
        count_of(sketch_counts(*s), k) > u16::MAX ==> r == u16::MAX,
        sketch_counts(*s) == no_counts() ==> r == 0,
{
    s.estimate(&k)
}

/// Relies on `CountMinSketch16::clear`: zero every counter. The call also
/// draws a fresh hash key and aborts if the operating system's random source
/// is unavailable.
#[verifier::external_body]
pub(crate) fn sketch_clear(s: &mut CountMinSketch16<u64>)
    ensures
        sketch_counts(*final(s)) == no_counts(),
{
    s.clear()
}

/// Approximate per-key access counts with coarse exponential aging: the
/// sketch counts only keys the doorkeeper has already seen, and every
/// `sample_size` qualifying accesses both are wiped clean.
pub struct FrequencyEstimator {
    approximation_sketch: CountMinSketch16<u64>,
    doorkeeper: Bloom<u64>,
    sample_size: usize,
    sample_counter: usize,
    recorded: Ghost<nat>,
}

impl FrequencyEstimator {
    /// The keys the doorkeeper has admitted since the last aging reset.
    pub closed spec fn seen(self) -> Set<u64> {
        bloom_keys(self.doorkeeper)
    }

    /// The per-key counts the sketch has recorded since the last aging reset.
    pub closed spec fn counts(self) -> Map<u64, nat> {
        sketch_counts(self.approximation_sketch)
    }

    pub closed spec fn spec_sample_size(self) -> nat {
        self.sample_size as nat
    }

    pub closed spec fn spec_sample_counter(self) -> nat {
        self.sample_counter as nat
    }

    /// How often `record` has run over the whole life of the estimator.
    pub closed spec fn records(self) -> nat {
        self.recorded@
    }

    pub closed spec fn wf(self) -> bool {
        &&& self.sample_size >= 1
        &&& self.sample_size <= usize::MAX / 16
        &&& self.sample_counter < self.sample_size
    }

    /// A fresh estimator for a sample window of `sample_size` accesses: the
    /// sketch is sized for twice that many distinct keys, the doorkeeper for
    /// `sample_size` keys at about a one-percent false-positive rate.
    pub fn new(sample_size: usize) -> (r: FrequencyEstimator)
        requires
            1 <= sample_size <= usize::MAX / 16,
        ensures
            r.wf(),
            r.spec_sample_size() == sample_size,
            r.spec_sample_counter() == 0,
            r.seen() == Set::<u64>::empty(),
            r.counts() == no_counts(),
            r.records() == 0,
    {
        // about 1.2 bytes per expected key keeps the false-positive rate of
        // the doorkeeper at or below one percent
        let bitmap_bytes: usize = sample_size + sample_size / 5 + 1;
        FrequencyEstimator {
            approximation_sketch: sketch_new(sample_size * 2),
            doorkeeper: bloom_new(bitmap_bytes, sample_size),
            sample_size,
            sample_counter: 0,
            recorded: Ghost(0),
        }
    }

    /// One qualifying outcome of `record`: the doorkeeper reported the key
    /// present, so the sketch counted it, and the window aged out if this
    /// access filled it.
    pub open spec fn recorded_in_sketch(self, o: FrequencyEstimator, k: u64) -> bool {
        if self.spec_sample_counter() + 1 >= self.spec_sample_size() {
            &&& o.spec_sample_counter() == 0
            &&& o.seen() == Set::<u64>::empty()
            &&& o.counts() == no_counts()
        } else {
            &&& o.spec_sample_counter() == self.spec_sample_counter() + 1
            &&& o.seen() == self.seen()
            &&& o.counts() == bump(self.counts(), k)
        }
    }

    /// The other outcome: the doorkeeper reported the key absent and admitted
    /// it, with the sketch and the window untouched.
    pub open spec fn admitted_to_doorkeeper(self, o: FrequencyEstimator, k: u64) -> bool {
        &&& o.spec_sample_counter() == self.spec_sample_counter()
        &&& o.seen() == self.seen().insert(k)
        &&& o.counts() == self.counts()
    }

    /// Record one access to `k`: keys already in the doorkeeper are counted in
    /// the sketch, new keys only enter the doorkeeper; every `sample_size`
    /// counted accesses the whole estimator is wiped, which ages old history
    /// out. A key of the doorkeeper is never misreported absent; a key outside
    /// it may be a false positive, so either outcome is possible for it.
    pub fn record(&mut self, k: u64)
        requires
            old(self).wf(),
        ensures
            final(self).wf(),
            final(self).spec_sample_size() == old(self).spec_sample_size(),
            final(self).records() == old(self).records() + 1,
            old(self).recorded_in_sketch(*final(self), k) || old(self).admitted_to_doorkeeper(
                *final(self),
                k,
            ),
            old(self).seen().contains(k) ==> old(self).recorded_in_sketch(*final(self), k),
            old(self).seen() == Set::<u64>::empty() ==> old(self).admitted_to_doorkeeper(
                *final(self),
                k,
            ),
    {
        if bloom_check(&self.doorkeeper, k) {
            sketch_increment(&mut self.approximation_sketch, k);
            self.sample_counter = self.sample_counter + 1;
            if self.sample_counter >= self.sample_size {
                sketch_clear(&mut self.approximation_sketch);
                bloom_clear(&mut self.doorkeeper);
                self.sample_counter = 0;
            }
        } else {
            bloom_set(&mut self.doorkeeper, k);
        }
        self.recorded = Ghost(self.recorded@ + 1);
    }

    /// The approximate frequency of `k`: the sketch's estimate, plus one if
    /// the doorkeeper has seen the key, so that a key seen once since the last
    /// reset ranks above a key never seen. The bonus saturates instead of
    /// overflowing the counter width. The exact value turns on per-instance
    /// hash seeds, but it never falls below the recorded count, and a freshly
    /// reset estimator reports zero for every key.
    pub fn estimate(&self, k: u64) -> (r: u16)
        ensures
            self.seen().contains(k) ==> r >= 1,
            count_of(self.counts(), k) <= u16::MAX ==> r >= count_of(self.counts(), k),
            self.seen().contains(k) && count_of(self.counts(), k) < u16::MAX ==> r >= count_of(
                self.counts(),
                k,
            ) + 1,
            count_of(self.counts(), k) > u16::MAX ==> r == u16::MAX,
            self.counts() == no_counts() && self.seen() == Set::<u64>::empty() ==> r == 0,
    {
        let est = sketch_estimate(&self.approximation_sketch, k);
        if bloom_check(&self.doorkeeper, k) {
            if est < u16::MAX {
                est + 1
            } else {
                est
            }
        } else {
            est
        }
    }

    /// Wipe the sketch, the doorkeeper and the window counter.
    pub fn clear(&mut self)
        requires
            old(self).wf(),
        ensures
            final(self).wf(),
            final(self).spec_sample_size() == old(self).spec_sample_size(),
            final(self).spec_sample_counter() == 0,
            final(self).seen() == Set::<u64>::empty(),
            final(self).counts() == no_counts(),
            final(self).records() == old(self).records(),
    {
        sketch_clear(&mut self.approximation_sketch);
        bloom_clear(&mut self.doorkeeper);
        self.sample_counter = 0;
    }
}

} // verus!
