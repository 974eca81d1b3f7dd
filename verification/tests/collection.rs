use aws_json_router::tiny_map::{TinyMap, ROUTE_CUTOFF};

fn pairs(n: usize) -> Vec<(String, u64)> {
    (0..n).map(|i| (format!("key{}", i), i as u64)).collect()
}

#[test]
fn scan_and_hash_modes_agree() {
    // one collection below the cutoff, one above; get answers alike
    let small = TinyMap::from_pairs(pairs(ROUTE_CUTOFF));
    let large = TinyMap::from_pairs(pairs(ROUTE_CUTOFF + 5));
    for i in 0..ROUTE_CUTOFF {
        let key = format!("key{}", i);
        assert_eq!(small.get(&key), Some(&(i as u64)));
        assert_eq!(large.get(&key), Some(&(i as u64)));
    }
    assert_eq!(small.get(&"absent".to_string()), None);
    assert_eq!(large.get(&"absent".to_string()), None);
}

#[test]
fn last_write_wins_on_duplicates() {
    let m = TinyMap::from_pairs(vec![
        ("a".to_string(), 1u32),
        ("b".to_string(), 2),
        ("a".to_string(), 3),
    ]);
    assert_eq!(m.get(&"a".to_string()), Some(&3));
    assert_eq!(m.get(&"b".to_string()), Some(&2));
    assert_eq!(m.entries().len(), 2);
}

#[test]
fn entries_keep_first_insertion_order() {
    let m = TinyMap::from_pairs(vec![
        ("x".to_string(), 1u32),
        ("y".to_string(), 2),
        ("x".to_string(), 7),
    ]);
    let entries = m.entries();
    assert_eq!(entries[0].0, "x");
    assert_eq!(entries[0].1, 7);
    assert_eq!(entries[1].0, "y");
}

#[test]
fn map_values_keeps_keys_in_both_modes() {
    for n in [3usize, ROUTE_CUTOFF + 10] {
        let m = TinyMap::from_pairs(pairs(n));
        let doubled = m.map_values(|v: u64| v * 2);
        for i in 0..n {
            assert_eq!(doubled.get(&format!("key{}", i)), Some(&(2 * i as u64)));
        }
        assert_eq!(doubled.get(&"absent".to_string()), None);
        assert_eq!(doubled.entries().len(), n);
    }
}

#[test]
fn empty_collection_answers_none() {
    let m: TinyMap<u8> = TinyMap::from_pairs(Vec::new());
    assert_eq!(m.get(&"anything".to_string()), None);
    assert_eq!(m.entries().len(), 0);
}
