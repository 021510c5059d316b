use std::sync::{Arc, Mutex};
use std::time::Duration;

use ttl_cache::cache::{Cache, CacheRwLock};
use ttl_cache::shared::SharedCache;

fn runtime() -> tokio::runtime::Runtime {
    tokio::runtime::Builder::new_multi_thread()
        .worker_threads(4)
        .enable_time()
        .build()
        .unwrap()
}

#[test]
fn cache_end_to_end() {
    let mut cache = Cache::new();
    cache.set("n".to_string(), 42u16, 60);
    assert_eq!(cache.get::<u16>("n"), Some(42));
    assert_eq!(cache.get::<i32>("n"), None);
    cache.remove("n");
    assert_eq!(cache.get::<u16>("n"), None);
}

#[test]
fn rwlock_cache_end_to_end() {
    let mut cache = CacheRwLock::new();
    cache.set("n".to_string(), 42u16, 60);
    assert_eq!(cache.get::<u16>("n"), Some(42));
    assert_eq!(cache.get::<i32>("n"), None);
    cache.remove("n");
    assert_eq!(cache.get::<u16>("n"), None);
}

#[test]
fn cache_type_mismatch() {
    let mut cache = Cache::new();
    cache.set("k".to_string(), 42i32, 0);
    assert_eq!(cache.get::<String>("k"), None);
    assert_eq!(cache.get::<i32>("k"), Some(42));
}

#[test]
fn set_reads_the_wall_clock() {
    let mut cache = Cache::new();
    cache.set("k".to_string(), 5i32, 60);
    assert_eq!(cache.get_at::<i32>("k", 60_000), Some(5));
    let mut cache = CacheRwLock::new();
    cache.set("k".to_string(), 5i32, 60);
    assert_eq!(cache.get_at::<i32>("k", 60_000), Some(5));
}

#[test]
fn sweep_reads_the_wall_clock() {
    let mut cache = CacheRwLock::new();
    cache.set_at("old".to_string(), 1i32, 1, 0);
    cache.set_at("kept".to_string(), 2i32, 0, 0);
    cache.clear_expired_entries();
    assert_eq!(cache.len(), 1);
    assert_eq!(cache.get::<i32>("kept"), Some(2));
}

#[test]
fn cache_sweep_at_explicit_time() {
    let mut cache = Cache::new();
    cache.set_at("a".to_string(), 1i32, 2, 1_000);
    cache.clear_expired_entries_at(2_999);
    assert_eq!(cache.len(), 1);
    cache.clear_expired_entries_at(3_000);
    assert_eq!(cache.len(), 0);
}

#[test]
fn expired_entry_misses_on_the_real_clock() {
    let rt = runtime();
    let cache = Arc::new(SharedCache::new());
    cache.set("a".to_string(), 1i32, 1);
    assert_eq!(cache.get::<i32>("a"), Some(1));
    rt.block_on(async { tokio::time::sleep(Duration::from_millis(1_100)).await });
    assert_eq!(cache.get::<i32>("a"), None);
    let mut cache = Cache::new();
    cache.set("a".to_string(), 1i32, 1);
    assert_eq!(cache.get::<i32>("a"), Some(1));
    rt.block_on(async { tokio::time::sleep(Duration::from_millis(1_100)).await });
    assert_eq!(cache.get::<i32>("a"), None);
}

#[test]
fn concurrent_sets_leave_one_of_the_values() {
    let rt = runtime();
    let cache = Arc::new(Mutex::new(Cache::new()));
    let shared = Arc::new(SharedCache::new());
    let mut handles = Vec::new();
    for i in 0..16i32 {
        let c = cache.clone();
        let s = shared.clone();
        handles.push(rt.spawn_blocking(move || {
            for _ in 0..50 {
                c.lock().unwrap().set("same_key".to_string(), i, 0);
                s.set("same_key".to_string(), i, 0);
                let _ = s.get::<i32>("same_key");
            }
        }));
    }
    for h in handles {
        rt.block_on(h).unwrap();
    }
    let cache = cache.lock().unwrap();
    let v = cache.get::<i32>("same_key").unwrap();
    assert!((0..16).contains(&v));
    let w = shared.get::<i32>("same_key").unwrap();
    assert!((0..16).contains(&w));
    assert_eq!(cache.len(), 1);
    assert_eq!(shared.len(), 1);
}

#[test]
fn cache_sweep_reads_the_wall_clock() {
    let mut cache = Cache::new();
    cache.set_at("old".to_string(), 1i32, 1, 0);
    cache.set_at("kept".to_string(), 2i32, 0, 0);
    cache.clear_expired_entries();
    assert_eq!(cache.len(), 1);
    assert_eq!(cache.get::<i32>("kept"), Some(2));
}

#[test]
fn shared_cache_end_to_end() {
    let cache = SharedCache::new();
    cache.set("n".to_string(), 42u16, 60);
    assert_eq!(cache.get::<u16>("n"), Some(42));
    assert_eq!(cache.get::<i32>("n"), None);
    cache.remove("n");
    assert_eq!(cache.get::<u16>("n"), None);
    cache.set_at("a".to_string(), 1i32, 2, 1_000);
    cache.clear_expired_entries_at(2_999);
    assert_eq!(cache.len(), 1);
    cache.clear_expired_entries_at(3_000);
    assert_eq!(cache.len(), 0);
}

#[test]
fn rwlock_cache_sweep_and_remove() {
    let mut cache = CacheRwLock::new();
    cache.set_at("a".to_string(), 1i32, 2, 1_000);
    cache.set_at("b".to_string(), "x".to_string(), 0, 1_000);
    cache.clear_expired_entries_at(3_000);
    assert_eq!(cache.len(), 1);
    assert_eq!(cache.get_at::<String>("b", 3_000), Some("x".to_string()));
    cache.remove("b");
    assert_eq!(cache.len(), 0);
}
