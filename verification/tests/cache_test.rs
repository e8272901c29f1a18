use pagezest::inmemory_cache::{CacheSet, ShardedCache};

#[test]
fn set_get_has_remove() {
    let mut c: ShardedCache<u64> = ShardedCache::new(4);
    assert_eq!(c.get("a"), None);
    assert!(!c.has("a"));
    c.set(&"a".to_string(), 1);
    c.set(&"b".to_string(), 2);
    assert_eq!(c.get("a"), Some(1));
    assert!(c.has("b"));
    c.set(&"a".to_string(), 3);
    assert_eq!(c.get("a"), Some(3));
    assert_eq!(c.remove("a"), Some(3));
    assert_eq!(c.get("a"), None);
    assert_eq!(c.remove("a"), None);
    assert_eq!(c.get("b"), Some(2));
}

#[test]
fn single_shard_and_many_keys() {
    let mut c: ShardedCache<String> = ShardedCache::new(1);
    for i in 0..50 {
        c.set(&format!("k{i}"), format!("v{i}"));
    }
    for i in 0..50 {
        assert_eq!(c.get(&format!("k{i}")), Some(format!("v{i}")));
    }
    let mut d: ShardedCache<String> = ShardedCache::new(7);
    for i in 0..50 {
        d.set(&format!("k{i}"), format!("v{i}"));
    }
    assert_eq!(d.get("k49"), Some("v49".to_string()));
    assert_eq!(d.get("ü"), None);
}

#[test]
fn hash_of_bytes() {
    assert_eq!(ShardedCache::<u8>::hash(""), 0);
    assert_eq!(ShardedCache::<u8>::hash("a"), 97);
    assert_eq!(ShardedCache::<u8>::hash("ab"), 97 * 31 + 98);
    // non-ASCII keys are hashed by their UTF-8 bytes
    assert_eq!(ShardedCache::<u8>::hash("é"), 0xc3 * 31 + 0xa9);
}

#[test]
fn messages() {
    let mut c: ShardedCache<u32> = ShardedCache::new(2);
    assert_eq!(c.handle(CacheSet::Insert { key: "p".to_string(), value: 5 }), None);
    assert_eq!(c.handle(CacheSet::Get { key: "p".to_string() }), Some(5));
    assert_eq!(c.handle(CacheSet::Remove { key: "p".to_string() }), None);
    assert_eq!(c.handle(CacheSet::Get { key: "p".to_string() }), None);
}

fn run(shards: usize, keys: &[&str]) -> Vec<Option<u32>> {
    let mut c: ShardedCache<u32> = ShardedCache::new(shards);
    let mut answers = Vec::new();
    for (i, k) in keys.iter().enumerate() {
        if i % 3 == 2 {
            c.handle(CacheSet::Remove { key: keys[i - 1].to_string() });
        } else {
            c.handle(CacheSet::Insert { key: k.to_string(), value: i as u32 });
        }
        for k2 in keys {
            answers.push(c.handle(CacheSet::Get { key: k2.to_string() }));
        }
    }
    answers
}

#[test]
fn cache_acts_as_a_map_whatever_its_shards() {
    let keys = ["a", "bb", "a", "ccc", "dd", "bb", "e", "a"];
    let one = run(1, &keys);
    assert_eq!(one, run(7, &keys));
    assert_eq!(one, run(64, &keys));
    let mut m = std::collections::HashMap::new();
    let mut expected = Vec::new();
    for (i, k) in keys.iter().enumerate() {
        if i % 3 == 2 {
            m.remove(keys[i - 1]);
        } else {
            m.insert(k.to_string(), i as u32);
        }
        for k2 in &keys {
            expected.push(m.get(*k2).cloned());
        }
    }
    assert_eq!(one, expected);
}
