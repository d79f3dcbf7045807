//! The sequential key cache on its own.

use topdown::cache::SequentialKeyCache;

#[test]
fn append_must_be_sequential() {
    let mut cache: SequentialKeyCache<u64> = SequentialKeyCache::sequential();
    assert_eq!(cache.size(), 0);
    assert_eq!(cache.lower_bound(), None);
    assert_eq!(cache.upper_bound(), None);

    // an empty cache accepts any starting key
    cache.append(10, 100).unwrap();
    assert_eq!(cache.lower_bound(), Some(10));
    assert_eq!(cache.upper_bound(), Some(10));

    cache.append(11, 110).unwrap();
    cache.append(12, 120).unwrap();
    assert_eq!(cache.size(), 3);
    assert_eq!(cache.upper_bound(), Some(12));

    // a gap is refused
    let e = cache.append(14, 140).unwrap_err();
    assert_eq!(e.upper, 12);
    assert_eq!(e.attempted, 14);
    // so is going backwards
    assert!(cache.append(12, 120).is_err());
    assert_eq!(cache.size(), 3);
}

#[test]
fn get_value_distinguishes_range() {
    let mut cache: SequentialKeyCache<&str> = SequentialKeyCache::sequential();
    cache.append(5, "five").unwrap();
    cache.append(6, "six").unwrap();
    assert_eq!(cache.get_value(5), Some(&"five"));
    assert_eq!(cache.get_value(6), Some(&"six"));
    assert_eq!(cache.get_value(4), None);
    assert_eq!(cache.get_value(7), None);
}

#[test]
fn remove_key_below_keeps_the_key_itself() {
    let mut cache: SequentialKeyCache<u64> = SequentialKeyCache::sequential();
    for k in 20..30u64 {
        cache.append(k, k * 10).unwrap();
    }
    cache.remove_key_below(25);
    assert_eq!(cache.lower_bound(), Some(25));
    assert_eq!(cache.upper_bound(), Some(29));
    assert_eq!(cache.size(), 5);
    assert_eq!(cache.get_value(24), None);
    assert_eq!(cache.get_value(25), Some(&250));

    // removing below the lower bound changes nothing
    cache.remove_key_below(10);
    assert_eq!(cache.size(), 5);

    // removing above the upper bound clears everything
    cache.remove_key_below(100);
    assert_eq!(cache.size(), 0);
    assert_eq!(cache.lower_bound(), None);
}

#[test]
fn clear_empties_the_cache() {
    let mut cache: SequentialKeyCache<u64> = SequentialKeyCache::sequential();
    cache.append(1, 1).unwrap();
    cache.append(2, 2).unwrap();
    cache.clear();
    assert_eq!(cache.size(), 0);
    // and it accepts a fresh starting key afterwards
    cache.append(7, 7).unwrap();
    assert_eq!(cache.lower_bound(), Some(7));
}
