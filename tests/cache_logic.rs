use ttl_cache::cache::{Cache, CAPACITY};

#[test]
fn no_ttl_value_is_found_later() {
    let mut s = Cache::new();
    s.set_at("k".to_string(), 7i64, 0, 1_000);
    assert_eq!(s.get_at::<i64>("k", 1_000), Some(7));
    assert_eq!(s.get_at::<i64>("k", u64::MAX), Some(7));
}

#[test]
fn ttl_value_expires_without_sweep() {
    let mut s = Cache::new();
    s.set_at("a".to_string(), 1i32, 1, 5_000);
    assert_eq!(s.get_at::<i32>("a", 5_000), Some(1));
    assert_eq!(s.get_at::<i32>("a", 5_999), Some(1));
    assert_eq!(s.get_at::<i32>("a", 6_000), None);
    assert_eq!(s.get_at::<i32>("a", 7_000), None);
    assert_eq!(s.len(), 1);
}

#[test]
fn type_mismatch_misses() {
    let mut s = Cache::new();
    s.set_at("k".to_string(), 42i32, 0, 0);
    assert_eq!(s.get_at::<String>("k", 0), None);
    assert_eq!(s.get_at::<u16>("k", 0), None);
    assert_eq!(s.get_at::<i64>("k", 0), None);
    assert_eq!(s.get_at::<i32>("k", 0), Some(42));
}

#[test]
fn remove_then_get_misses() {
    let mut s = Cache::new();
    s.set_at("k".to_string(), "text".to_string(), 0, 0);
    s.set_at("other".to_string(), 3u8, 0, 0);
    s.remove("k");
    assert_eq!(s.get_at::<String>("k", 0), None);
    assert_eq!(s.get_at::<u8>("other", 0), Some(3));
    assert_eq!(s.len(), 1);
    s.remove("missing");
    assert_eq!(s.len(), 1);
}

#[test]
fn set_replaces_value_and_deadline() {
    let mut s = Cache::new();
    s.set_at("k".to_string(), 1u32, 1, 0);
    s.set_at("k".to_string(), vec![1i32, 2, 3], 0, 0);
    assert_eq!(s.get_at::<u32>("k", 0), None);
    assert_eq!(s.get_at::<Vec<i32>>("k", 10_000), Some(vec![1, 2, 3]));
    assert_eq!(s.len(), 1);
}

#[test]
fn overflow_flushes_everything() {
    let mut s = Cache::new();
    for i in 0..=CAPACITY {
        s.set_at(format!("key{}", i), i as u64, 0, 0);
    }
    assert_eq!(s.len(), CAPACITY + 1);
    assert_eq!(s.get_at::<u64>("key0", 0), Some(0));
    s.set_at("fresh".to_string(), true, 0, 0);
    assert_eq!(s.len(), 1);
    assert_eq!(s.get_at::<u64>("key0", 0), None);
    assert_eq!(s.get_at::<bool>("fresh", 0), Some(true));
}

#[test]
fn at_capacity_nothing_is_flushed() {
    let mut s = Cache::new();
    for i in 0..CAPACITY {
        s.set_at(format!("key{}", i), i as u64, 0, 0);
    }
    s.set_at("one_more".to_string(), 1u64, 0, 0);
    assert_eq!(s.len(), CAPACITY + 1);
    assert_eq!(s.get_at::<u64>("key5", 0), Some(5));
}

#[test]
fn sweep_removes_only_expired() {
    let mut s = Cache::new();
    s.set_at("short".to_string(), 1i32, 1, 0);
    s.set_at("long".to_string(), 2i32, 100, 0);
    s.set_at("forever".to_string(), 3i32, 0, 0);
    s.clear_expired_entries_at(999);
    assert_eq!(s.len(), 3);
    s.clear_expired_entries_at(1_000);
    assert_eq!(s.len(), 2);
    assert_eq!(s.get_at::<i32>("short", 0), None);
    assert_eq!(s.get_at::<i32>("long", 1_000), Some(2));
    assert_eq!(s.get_at::<i32>("forever", 1_000), Some(3));
}

#[test]
fn sweep_twice_is_sweep_once() {
    let mut s = Cache::new();
    s.set_at("a".to_string(), 1i32, 1, 0);
    s.set_at("b".to_string(), 2i32, 5, 0);
    s.set_at("c".to_string(), 3i32, 0, 0);
    s.clear_expired_entries_at(2_000);
    assert_eq!(s.len(), 2);
    s.clear_expired_entries_at(2_000);
    assert_eq!(s.len(), 2);
    assert_eq!(s.get_at::<i32>("b", 2_000), Some(2));
    assert_eq!(s.get_at::<i32>("c", 2_000), Some(3));
}

#[test]
fn sweep_on_empty_cache() {
    let mut s = Cache::new();
    s.clear_expired_entries_at(0);
    assert_eq!(s.len(), 0);
}

#[test]
fn end_to_end_scenario() {
    let mut s = Cache::new();
    s.set_at("n".to_string(), 42u16, 60, 10_000);
    assert_eq!(s.get_at::<u16>("n", 10_000), Some(42));
    assert_eq!(s.get_at::<i32>("n", 10_000), None);
    s.remove("n");
    assert_eq!(s.get_at::<u16>("n", 10_000), None);
}

#[test]
fn deadline_beyond_clock_range_never_expires() {
    let mut s = Cache::new();
    s.set_at("k".to_string(), 'x', u64::MAX, u64::MAX);
    assert_eq!(s.get_at::<char>("k", u64::MAX), Some('x'));
    s.clear_expired_entries_at(u64::MAX);
    assert_eq!(s.len(), 1);
}

#[test]
fn every_storable_type_round_trips() {
    let mut s = Cache::new();
    s.set_at("bool".to_string(), false, 0, 0);
    s.set_at("i8".to_string(), -8i8, 0, 0);
    s.set_at("i16".to_string(), -16i16, 0, 0);
    s.set_at("isize".to_string(), -1isize, 0, 0);
    s.set_at("u16".to_string(), 16u16, 0, 0);
    s.set_at("usize".to_string(), 9usize, 0, 0);
    s.set_at("bytes".to_string(), vec![1u8, 2], 0, 0);
    s.set_at("i64s".to_string(), vec![-1i64], 0, 0);
    s.set_at("u64s".to_string(), Vec::<u64>::new(), 0, 0);
    assert_eq!(s.get_at::<bool>("bool", 0), Some(false));
    assert_eq!(s.get_at::<i8>("i8", 0), Some(-8));
    assert_eq!(s.get_at::<i16>("i16", 0), Some(-16));
    assert_eq!(s.get_at::<isize>("isize", 0), Some(-1));
    assert_eq!(s.get_at::<u16>("u16", 0), Some(16));
    assert_eq!(s.get_at::<usize>("usize", 0), Some(9));
    assert_eq!(s.get_at::<Vec<u8>>("bytes", 0), Some(vec![1, 2]));
    assert_eq!(s.get_at::<Vec<i64>>("i64s", 0), Some(vec![-1]));
    assert_eq!(s.get_at::<Vec<u64>>("u64s", 0), Some(vec![]));
    assert_eq!(s.get_at::<Vec<i32>>("u64s", 0), None);
    assert_eq!(s.get_at::<u64>("usize", 0), None);
}
