use spacegate_kernel::plugins::filters::retry::expiring_map::ExpireMap;
use spacegate_kernel::plugins::filters::retry::{BackOff, SgFilterRetry};

#[test]
fn retry_test() {
    let t0: u128 = 1_700_000_000_000;
    let mut expire_map = ExpireMap::<Option<Vec<u8>>>::new();
    expire_map.insert_at("a".to_string(), Some(vec![1, 2, 3]), std::time::Duration::from_secs(1).as_millis(), t0);
    expire_map.insert_at("b".to_string(), Some(vec![1, 2, 3]), std::time::Duration::from_secs(1).as_millis(), t0);
    expire_map.insert_at("c".to_string(), Some(vec![1, 2, 3]), std::time::Duration::from_secs(2).as_millis(), t0);
    expire_map.insert_at("d".to_string(), Some(vec![1, 2, 3]), std::time::Duration::from_secs(3).as_millis(), t0);
    assert_eq!(expire_map.len_at(t0), 4);

    // two seconds later
    let t1 = t0 + 2000;
    assert!(expire_map.get_at("a", t1).is_none());
    assert!(expire_map.remove_at("a", t1).is_none());
    assert_eq!(expire_map.len_at(t1), 1);

    let mut expire_map = ExpireMap::<Option<Vec<u8>>>::new();
    for i in 0..50 {
        let mut a = vec![1, 2, 3];
        for _ in 0..i {
            a.push(1)
        }
        expire_map.insert_at(format!("a{}", i), Some(a), 1, t0);
    }
    expire_map.insert_at("b".to_string(), Some(vec![1, 2, 3]), 4, t0);
    expire_map.insert_at("c".to_string(), Some(vec![1, 2, 3]), 2, t0);
    expire_map.insert_at("d".to_string(), Some(vec![1, 2, 3]), 5, t0);

    // two milliseconds later
    let t2 = t0 + 2;
    assert!(expire_map.get_at("a", t2).is_none());
    assert!(expire_map.remove_at("c", t2).is_none());
    assert_eq!(expire_map.len_at(t2), 2);
}

#[test]
fn expire_map_keeps_until_expiry() {
    let mut m = ExpireMap::<u32>::new();
    assert_eq!(m.insert_at("k".to_string(), 1, 10, 100), None);
    assert_eq!(m.insert_at("k".to_string(), 2, 50, 100), Some(1));
    assert_eq!(m.get_at("k", 105), Some(&2));
    // the first insertion's expiry drops the key, as the queue says
    assert_eq!(m.get_at("k", 110), None);
    assert_eq!(m.len_at(110), 0);
    let mut m2 = ExpireMap::<u32>::new();
    m2.insert("x".to_string(), 7, 60_000);
    assert_eq!(m2.get("x"), Some(&7));
    assert_eq!(m2.remove("x"), Some(7));
    assert_eq!(m2.len(), 0);
}

#[test]
fn backoff_intervals() {
    let retry = SgFilterRetry::default();
    assert_eq!(retry.retries, 3);
    assert_eq!(retry.backoff, BackOff::Exponential);
    assert_eq!(retry.backoff_interval(1), 200);
    assert_eq!(retry.backoff_interval(3), 800);
    let fixed = SgFilterRetry { backoff: BackOff::Fixed, ..SgFilterRetry::default() };
    assert_eq!(fixed.backoff_interval(5), 100);
    let random = SgFilterRetry { backoff: BackOff::Random, ..SgFilterRetry::default() };
    for i in 0..20 {
        let b = random.backoff_interval(i);
        assert!((100..10000).contains(&b));
    }
    assert_eq!(retry.body_keep_millis(), 30000);
}

#[test]
fn expire_map_insert_then_remove() {
    let mut m = ExpireMap::<u32>::new();
    m.insert_at("k".to_string(), 5, 100, 1000);
    assert_eq!(m.remove_at("k", 1099), Some(5));
    let mut m = ExpireMap::<u32>::new();
    m.insert_at("k".to_string(), 5, 100, 1000);
    assert_eq!(m.remove_at("k", 1100), None);
    assert_eq!(m.get_at("k", 1100), None);
}
