use redis_clone::redis::{RedisHash, RedisList, RedisSet, RedisString, RedisValue};

#[test]
fn string_new_get_append_len() {
    let mut s = RedisString::new(b"ab".to_vec());
    assert_eq!(s.get(), b"ab");
    s.append(b"cd");
    assert_eq!(s.get(), b"abcd");
    assert_eq!(s.len(), 4);
}

#[test]
fn string_append_empty_keeps_value() {
    let mut s = RedisString::new(Vec::new());
    s.append(b"");
    assert_eq!(s.len(), 0);
}

#[test]
fn list_push_pop_both_ends() {
    let mut l = RedisList::new();
    l.push_back(b"b".to_vec());
    l.push_front(b"a".to_vec());
    l.push_back(b"c".to_vec());
    assert_eq!(l.len(), 3);
    assert_eq!(l.get(0), Some(&b"a".to_vec()));
    assert_eq!(l.get(2), Some(&b"c".to_vec()));
    assert_eq!(l.get(3), None);
    assert_eq!(l.pop_front(), Some(b"a".to_vec()));
    assert_eq!(l.pop_back(), Some(b"c".to_vec()));
    assert_eq!(l.pop_back(), Some(b"b".to_vec()));
    assert_eq!(l.pop_back(), None);
    assert_eq!(l.pop_front(), None);
}

#[test]
fn list_set_in_and_out_of_range() {
    let mut l = RedisList::new();
    l.push_back(b"x".to_vec());
    l.set(0, b"y".to_vec());
    assert_eq!(l.get(0), Some(&b"y".to_vec()));
    l.set(5, b"z".to_vec());
    assert_eq!(l.len(), 1);
    l.clear();
    assert_eq!(l.len(), 0);
    l.replace(vec![b"p".to_vec(), b"q".to_vec()]);
    assert_eq!(l.len(), 2);
    assert_eq!(l.get(1), Some(&b"q".to_vec()));
}

#[test]
fn hash_set_get_remove() {
    let mut h = RedisHash::new();
    h.set(b"f".to_vec(), b"1".to_vec());
    h.set(b"g".to_vec(), b"2".to_vec());
    h.set(b"f".to_vec(), b"3".to_vec());
    assert_eq!(h.len(), 2);
    assert_eq!(h.get(b"f"), Some(&b"3".to_vec()));
    assert!(h.field_exists(b"g"));
    assert_eq!(h.keys(), vec![b"f".to_vec(), b"g".to_vec()]);
    assert_eq!(h.values(), vec![b"3".to_vec(), b"2".to_vec()]);
    h.remove(b"f");
    assert_eq!(h.get(b"f"), None);
    assert!(!h.field_exists(b"f"));
    h.remove(b"missing");
    assert_eq!(h.len(), 1);
    h.clear();
    assert_eq!(h.len(), 0);
}

#[test]
fn hash_replace_later_pair_wins() {
    let mut h = RedisHash::new();
    h.set(b"old".to_vec(), b"v".to_vec());
    h.replace(vec![
        (b"a".to_vec(), b"1".to_vec()),
        (b"b".to_vec(), b"2".to_vec()),
        (b"a".to_vec(), b"3".to_vec()),
    ]);
    assert_eq!(h.len(), 2);
    assert_eq!(h.get(b"a"), Some(&b"3".to_vec()));
    assert_eq!(h.get(b"old"), None);
}

#[test]
fn set_add_remove_contains() {
    let mut s = RedisSet::new();
    s.add(b"a".to_vec());
    s.add(b"b".to_vec());
    s.add(b"a".to_vec());
    assert_eq!(s.len(), 2);
    assert!(s.contains(b"a"));
    assert_eq!(s.values(), vec![b"a".to_vec(), b"b".to_vec()]);
    s.remove(b"a");
    assert!(!s.contains(b"a"));
    s.remove(b"nothing");
    assert_eq!(s.len(), 1);
    s.clear();
    assert_eq!(s.len(), 0);
    s.replace(vec![b"x".to_vec(), b"x".to_vec(), b"y".to_vec()]);
    assert_eq!(s.values(), vec![b"x".to_vec(), b"y".to_vec()]);
}

#[test]
fn value_variants_hold_their_kind() {
    let v = RedisValue::List(RedisList::new());
    assert!(matches!(v, RedisValue::List(_)));
    let w = RedisValue::SetValue(RedisSet::new());
    assert!(matches!(w, RedisValue::SetValue(_)));
}
