use wtinylfu::freq::FrequencyEstimator;
use wtinylfu::slru::SlruCache;

#[test]
fn slru_store_and_retrieve_items() {
    let mut cache = SlruCache::new(10);
    cache.push(1, String::from("one"));
    cache.push(2, String::from("two"));
    assert_eq!(cache.get(&1), Some(String::from("one")));
    assert_eq!(cache.get(&2), Some(String::from("two")));
}

#[test]
fn slru_store_retrieve_and_pop_items() {
    let mut cache = SlruCache::new(10);
    cache.push(1, String::from("one"));
    cache.push(2, String::from("two"));
    assert_eq!(cache.get(&1), Some(String::from("one")));
    assert_eq!(cache.get(&2), Some(String::from("two")));

    cache.pop(&1);
    assert_eq!(cache.get(&1), None);
    assert_eq!(cache.get(&2), Some(String::from("two")));
}

#[test]
fn slru_check_if_lru_is_correct() {
    let mut cache = SlruCache::new(25);
    cache.push(1, String::from("one"));
    cache.push(2, String::from("two"));
    cache.push(3, String::from("three"));
    cache.push(4, String::from("four"));
    cache.push(5, String::from("five"));
    assert_eq!(cache.peek_lru(), Some((1, String::from("one"))));

    cache.get(&1);
    cache.get(&2);
    cache.get(&3);
    cache.get(&4);
    cache.get(&5);
    assert_eq!(cache.peek_lru(), Some((1, String::from("one"))));

    cache.get(&3);
    cache.get(&2);
    cache.get(&4);
    cache.get(&1);
    cache.get(&5);
    assert_eq!(cache.peek_lru(), Some((3, String::from("three"))));
}

#[test]
fn slru_check_if_cap_and_len_are_correct() {
    let mut cache = SlruCache::new(10);
    cache.push(1, String::from("one"));
    cache.push(2, String::from("two"));
    assert_eq!(cache.cap(), 10);
    assert_eq!(cache.len(), 2);

    cache.get(&1);
    cache.get(&2);
    assert_eq!(cache.cap(), 10);
    assert_eq!(cache.len(), 2);

    cache.push(3, String::from("three"));
    assert_eq!(cache.cap(), 10);
    assert_eq!(cache.len(), 3);

    cache.get(&3);
    assert_eq!(cache.cap(), 10);
    assert_eq!(cache.len(), 3);
}

#[test]
fn slru_clear_cache() {
    let mut cache = SlruCache::new(10);
    cache.push(1, String::from("one"));
    cache.push(2, String::from("two"));
    assert_eq!(cache.get(&1), Some(String::from("one")));
    assert_eq!(cache.get(&2), Some(String::from("two")));
    assert_eq!(cache.len(), 2);
    assert_eq!(cache.cap(), 10);

    cache.clear();
    assert_eq!(cache.get(&1), None);
    assert_eq!(cache.get(&2), None);
    assert_eq!(cache.len(), 0);
    assert_eq!(cache.cap(), 10);
}

#[test]
fn slru_peek_checks_probationary_first_without_reordering() {
    let mut cache = SlruCache::new(10);
    cache.push(1, String::from("one"));
    cache.push(2, String::from("two"));
    assert_eq!(cache.peek(&1), Some(String::from("one")));
    assert_eq!(cache.peek(&3), None);
    // peeking did not promote: the probationary LRU entry is still key 1
    assert_eq!(cache.peek_lru(), Some((1, String::from("one"))));
}

#[test]
fn slru_victim_shows_only_when_probationary_is_full() {
    let mut cache = SlruCache::new(10);
    // probationary holds two entries at this capacity
    cache.push(1, String::from("one"));
    assert_eq!(cache.peek_lru_if_full(), None);
    cache.push(2, String::from("two"));
    assert_eq!(cache.peek_lru_if_full(), Some((1, String::from("one"))));
}

#[test]
fn estimator_aging_reset_wipes_history() {
    let mut est = FrequencyEstimator::new(2);
    est.record(7);
    // admitted to the doorkeeper only; a second access is counted
    est.record(7);
    assert!(est.estimate(7) >= 2);
    // this counted access fills the sample window: sketch, doorkeeper and
    // counter all reset, so the key reads as never seen
    est.record(7);
    assert_eq!(est.estimate(7), 0);
}

#[test]
fn estimator_counts_repeats_and_clears_to_zero() {
    let mut est = FrequencyEstimator::new(100);
    est.record(9);
    est.record(9);
    est.record(9);
    // one doorkeeper admission, then two sketch increments, plus the
    // doorkeeper bonus of one
    assert!(est.estimate(9) >= 3);
    est.clear();
    assert_eq!(est.estimate(9), 0);
}
