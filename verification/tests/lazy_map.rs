use lazy_hash_map::LazyHashMap;

#[test]
fn fresh_map_reads_are_absent() {
    let m: LazyHashMap<String, i32> = LazyHashMap::new();
    assert_eq!(m.get("a"), None);
    assert!(!m.contains_key("a"));
}

#[test]
fn fresh_iterate_is_empty() {
    let m: LazyHashMap<String, i32> = LazyHashMap::new();
    let mut it = m.iter();
    assert_eq!(it.size_hint(), (0, Some(0)));
    assert_eq!(it.next(), None);
    assert_eq!(it.next(), None);
    assert_eq!(it.size_hint(), (0, Some(0)));
}

#[test]
fn insert_reports_no_previous_value() {
    let mut m: LazyHashMap<String, i32> = LazyHashMap::new();
    assert_eq!(m.insert(String::from("a"), 1), None);
    assert_eq!(m.get("a"), Some(&1));
    assert!(m.contains_key("a"));
}

#[test]
fn overwrite_returns_previous_and_last_write_wins() {
    let mut m: LazyHashMap<String, i32> = LazyHashMap::new();
    assert_eq!(m.insert(String::from("a"), 1), None);
    assert_eq!(m.insert(String::from("a"), 2), Some(1));
    assert_eq!(m.get("a"), Some(&2));
}

#[test]
fn iterate_two_entries() {
    let mut m: LazyHashMap<String, i32> = LazyHashMap::new();
    m.insert(String::from("a"), 1);
    m.insert(String::from("b"), 2);
    let mut seen: Vec<(String, i32)> = Vec::new();
    let mut it = m.iter();
    while let Some((k, v)) = it.next() {
        seen.push((k.clone(), *v));
    }
    assert_eq!(seen.len(), 2);
    assert!(seen.contains(&(String::from("a"), 1)));
    assert!(seen.contains(&(String::from("b"), 2)));
}

#[test]
fn reads_never_materialize() {
    let m: LazyHashMap<u64, u64> = LazyHashMap::new();
    for round in 0..3u64 {
        assert!(!m.contains_key(&round));
        assert_eq!(m.get(&round), None);
        let mut it = m.iter();
        assert_eq!(it.size_hint(), (0, Some(0)));
        assert_eq!(it.next(), None);
    }
}

#[test]
fn distinct_keys_cardinality() {
    let mut m: LazyHashMap<u64, u64> = LazyHashMap::new();
    for k in 0..100u64 {
        assert_eq!(m.insert(k, 2 * k), None);
    }
    let it = m.iter();
    assert_eq!(it.size_hint(), (100, Some(100)));
    let mut seen: Vec<u64> = Vec::new();
    let mut it = m.iter();
    while let Some((k, v)) = it.next() {
        assert_eq!(*v, 2 * *k);
        assert!(!seen.contains(k), "key yielded twice");
        seen.push(*k);
    }
    assert_eq!(seen.len(), 100);
    for k in 0..100u64 {
        assert!(seen.contains(&k));
    }
}

#[test]
fn overwrites_keep_cardinality() {
    let mut m: LazyHashMap<u64, u64> = LazyHashMap::new();
    assert_eq!(m.insert(7, 0), None);
    for i in 1..10u64 {
        assert_eq!(m.insert(7, i), Some(i - 1));
    }
    let mut it = m.iter();
    assert_eq!(it.size_hint(), (1, Some(1)));
    assert_eq!(it.next(), Some((&7, &9)));
    assert_eq!(it.next(), None);
}

#[test]
fn iteration_is_restartable() {
    let mut m: LazyHashMap<u64, u64> = LazyHashMap::new();
    m.insert(1, 10);
    m.insert(2, 20);
    for _ in 0..2 {
        let mut count: usize = 0;
        let mut it = m.iter();
        while let Some((k, v)) = it.next() {
            assert_eq!(*v, *k * 10);
            count += 1;
        }
        assert_eq!(count, 2);
    }
}

#[test]
fn exhausted_cursor_stays_exhausted() {
    let mut m: LazyHashMap<u64, u64> = LazyHashMap::new();
    m.insert(5, 50);
    let mut it = m.iter();
    assert_eq!(it.next(), Some((&5, &50)));
    assert_eq!(it.next(), None);
    assert_eq!(it.next(), None);
    assert_eq!(it.size_hint(), (0, Some(0)));
}

#[test]
fn size_hint_tracks_progress() {
    let mut m: LazyHashMap<u64, u64> = LazyHashMap::new();
    for k in 0..5u64 {
        m.insert(k, k);
    }
    let mut it = m.iter();
    for left in (0..5usize).rev() {
        assert!(it.next().is_some());
        assert_eq!(it.size_hint(), (left, Some(left)));
    }
    assert_eq!(it.next(), None);
}

#[test]
fn borrowed_and_owned_lookups_agree() {
    let mut m: LazyHashMap<String, i32> = LazyHashMap::new();
    m.insert(String::from("key"), 42);
    let owned = String::from("key");
    assert_eq!(m.get(&owned), Some(&42));
    assert_eq!(m.get("key"), Some(&42));
    assert!(m.contains_key(&owned));
    assert!(m.contains_key("key"));
    assert_eq!(m.get("other"), None);
    assert!(!m.contains_key("other"));
}
