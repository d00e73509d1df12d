use wtinylfu::WTinyLfuCache;

fn iter_keys(cache: &WTinyLfuCache) -> Vec<u64> {
    let mut out: Vec<u64> = cache.iter().into_iter().map(|(k, _)| k).collect();
    out.sort();
    out
}

#[test]
fn lib_store_and_retrieve_items() {
    let mut cache = WTinyLfuCache::new(2, 10);
    cache.push(1, String::from("one"));
    cache.push(2, String::from("two"));
    assert_eq!(cache.get(&1), Some(String::from("one")));
    assert_eq!(cache.get(&2), Some(String::from("two")));
    assert_eq!(&iter_keys(&cache), &[1, 2]);
}

#[test]
fn lib_store_retrieve_and_pop_items() {
    let mut cache = WTinyLfuCache::new(2, 10);
    cache.push(1, String::from("one"));
    cache.push(2, String::from("two"));
    assert_eq!(cache.get(&1), Some(String::from("one")));
    assert_eq!(cache.get(&2), Some(String::from("two")));

    cache.pop(&1);
    assert_eq!(cache.get(&1), None);
    assert_eq!(cache.get(&2), Some(String::from("two")));
    assert_eq!(&iter_keys(&cache), &[2]);
}

#[test]
fn lib_check_if_lru_is_correct() {
    let mut cache = WTinyLfuCache::new(500, 10);
    cache.push(1, String::from("one"));
    cache.push(2, String::from("two"));
    cache.push(3, String::from("three"));
    cache.push(4, String::from("four"));
    cache.push(5, String::from("five"));
    assert_eq!(cache.peek_lru_window(), Some((1, String::from("one"))));
    assert_eq!(cache.peek_lru_main(), None);

    cache.get(&1);
    cache.get(&2);
    cache.get(&3);
    cache.get(&4);
    cache.get(&5);
    assert_eq!(cache.peek_lru_window(), Some((1, String::from("one"))));
    assert_eq!(cache.peek_lru_main(), None);

    cache.get(&3);
    cache.get(&2);
    cache.get(&4);
    cache.get(&1);
    cache.get(&5);
    assert_eq!(cache.peek_lru_window(), Some((3, String::from("three"))));
    assert_eq!(cache.peek_lru_main(), None);
}

#[test]
fn lib_check_if_cap_and_len_are_correct() {
    let mut cache = WTinyLfuCache::new(3, 10);
    cache.push(1, String::from("one"));
    cache.push(2, String::from("two"));
    assert_eq!(cache.cap(), 3);
    assert_eq!(cache.len(), 2);

    cache.get(&1);
    cache.get(&2);
    assert_eq!(cache.cap(), 3);
    assert_eq!(cache.len(), 2);

    cache.push(3, String::from("three"));
    assert_eq!(cache.cap(), 3);
    assert_eq!(cache.len(), 3);

    cache.get(&3);
    assert_eq!(cache.cap(), 3);
    assert_eq!(cache.len(), 3);

    assert_eq!(&iter_keys(&cache), &[1, 2, 3]);
}

#[test]
fn lib_clear_cache() {
    let mut cache = WTinyLfuCache::new(10, 10);
    cache.push(1, String::from("one"));
    cache.push(2, String::from("two"));
    assert_eq!(cache.get(&1), Some(String::from("one")));
    assert_eq!(cache.get(&2), Some(String::from("two")));
    assert_eq!(cache.len(), 2);
    assert_eq!(cache.cap(), 10);
    assert_eq!(&iter_keys(&cache), &[1, 2]);

    cache.clear();
    assert_eq!(cache.get(&1), None);
    assert_eq!(cache.get(&2), None);
    assert_eq!(cache.len(), 0);
    assert_eq!(cache.cap(), 10);
    assert_eq!(&iter_keys(&cache), &[]);
}

#[test]
fn put_returns_old_value_and_keeps_len() {
    let mut cache = WTinyLfuCache::new(10, 10);
    assert_eq!(cache.put(1, String::from("a")), None);
    assert_eq!(cache.len(), 1);
    assert_eq!(cache.put(1, String::from("b")), Some(String::from("a")));
    assert_eq!(cache.len(), 1);
    assert_eq!(cache.peek(&1), Some(String::from("b")));
}

#[test]
fn put_then_peek_finds_the_value() {
    let mut cache = WTinyLfuCache::new(10, 10);
    cache.put(7, String::from("seven"));
    assert!(cache.contains(&7));
    assert_eq!(cache.peek(&7), Some(String::from("seven")));
    assert_eq!(cache.peek_mut(&7), Some(String::from("seven")));
    assert_eq!(cache.peek(&8), None);
}

#[test]
fn len_never_exceeds_cap() {
    let mut cache = WTinyLfuCache::new(4, 10);
    for k in 0..50u64 {
        cache.push(k, format!("v{}", k));
        assert!(cache.len() <= cache.cap());
    }
}

#[test]
fn peek_does_not_promote_but_get_does() {
    let mut cache = WTinyLfuCache::new(500, 10);
    cache.push(1, String::from("one"));
    cache.push(2, String::from("two"));
    cache.push(3, String::from("three"));

    cache.peek(&1);
    assert_eq!(cache.peek_lru_window(), Some((1, String::from("one"))));

    cache.get(&1);
    assert_eq!(cache.peek_lru_window(), Some((2, String::from("two"))));
}

#[test]
fn pop_entry_returns_the_pair() {
    let mut cache = WTinyLfuCache::new(10, 10);
    cache.push(5, String::from("five"));
    assert_eq!(cache.pop_entry(&5), Some((5, String::from("five"))));
    assert_eq!(cache.pop_entry(&5), None);
    assert!(cache.is_empty());
}

#[test]
fn pop_lru_from_each_side() {
    let mut cache = WTinyLfuCache::new(2, 10);
    cache.push(1, String::from("one"));
    cache.push(2, String::from("two"));
    // key 1 was displaced from the one-slot window into the main cache
    assert_eq!(cache.pop_lru_main(), Some((1, String::from("one"))));
    assert_eq!(cache.pop_lru_window(), Some((2, String::from("two"))));
    assert_eq!(cache.pop_lru_window(), None);
    assert_eq!(cache.pop_lru_main(), None);
}

#[test]
fn resize_recomputes_cap_within_two_of_request() {
    let mut cache = WTinyLfuCache::new(100, 10);
    assert_eq!(cache.cap(), 100);
    for k in 0..20u64 {
        cache.push(k, format!("v{}", k));
    }
    cache.resize(10);
    // window 1, probationary 1, protected 8
    assert_eq!(cache.cap(), 10);
    assert!(cache.len() <= cache.cap());
    cache.resize(1);
    // every sub-cache floored at one: two units of slack over the request
    assert_eq!(cache.cap(), 3);
    assert!(cache.len() <= cache.cap());
}

#[test]
fn repeated_gets_survive_aging_resets() {
    // with a sample size of four, ten recorded hits cross the aging
    // threshold at least twice, wiping the doorkeeper and the sketch
    let mut cache = WTinyLfuCache::new(10, 4);
    cache.push(1, String::from("one"));
    for _ in 0..10 {
        assert_eq!(cache.get(&1), Some(String::from("one")));
    }
    assert!(cache.contains(&1));
}

#[test]
fn iteration_yields_each_key_once() {
    let mut cache = WTinyLfuCache::new(3, 10);
    cache.push(1, String::from("one"));
    cache.push(2, String::from("two"));
    cache.push(3, String::from("three"));
    // spread the entries over the sub-caches before iterating
    cache.get(&1);
    let mut keys: Vec<u64> = cache.iter().into_iter().map(|(k, _)| k).collect();
    assert_eq!(keys.len(), cache.len());
    keys.sort();
    keys.dedup();
    assert_eq!(keys.len(), cache.len());
}

#[test]
fn hot_key_survives_a_scan_of_cold_keys() {
    let mut cache = WTinyLfuCache::new(100, 10);
    cache.push(1, String::from("hot"));
    for _ in 0..5 {
        cache.get(&1);
    }
    // key 1 now sits in the protected segment; a long stream of one-shot
    // keys runs through the window and the probationary segment only
    for k in 1000..1200u64 {
        cache.push(k, format!("cold{}", k));
    }
    assert!(cache.contains(&1));
    assert_eq!(cache.peek(&1), Some(String::from("hot")));
}
