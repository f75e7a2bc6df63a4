use redis_clone::ttl::TtlManager;

#[test]
fn earliest_expiration_comes_first() {
    let mut t = TtlManager::new();
    assert!(t.next_expiration().is_none());
    t.set_ttl(b"b".to_vec(), 20);
    t.set_ttl(b"a".to_vec(), 10);
    t.set_ttl(b"c".to_vec(), 30);
    t.set_ttl(b"d".to_vec(), 10);
    let first = t.next_expiration().unwrap();
    assert_eq!(first.key, b"a".to_vec());
    assert_eq!(first.expiration, 10);
    assert!(t.pop_expired(9).is_none());
    let p = t.pop_expired(10).unwrap();
    assert_eq!(p.key, b"a".to_vec());
    let p = t.pop_expired(15).unwrap();
    assert_eq!(p.key, b"d".to_vec());
    assert!(t.pop_expired(15).is_none());
    assert_eq!(t.pop_expired(u64::MAX).unwrap().key, b"b".to_vec());
    assert_eq!(t.pop_expired(30).unwrap().key, b"c".to_vec());
    assert!(t.pop_expired(u64::MAX).is_none());
}
