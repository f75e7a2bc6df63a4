use redis_clone::server::RedisServer;
use redis_clone::store::Store;
use redis_clone::redis::{RedisString, RedisValue};

#[test]
fn server_create_and_delete() {
    let mut s = RedisServer::new();
    assert!(!s.key_exists(b"k"));
    s.create_string(b"k".to_vec(), b"v".to_vec());
    assert!(s.key_exists(b"k"));
    s.create_list(b"l".to_vec());
    s.create_hash(b"h".to_vec());
    s.create_set(b"s".to_vec());
    assert_eq!(s.data.len(), 4);
    s.delete(b"k");
    assert!(!s.key_exists(b"k"));
    assert_eq!(s.data.len(), 3);
    s.delete(b"absent");
    assert_eq!(s.data.len(), 3);
}

#[test]
fn server_create_overwrites_kind() {
    let mut s = RedisServer::new();
    s.create_string(b"k".to_vec(), b"v".to_vec());
    s.create_list(b"k".to_vec());
    assert!(matches!(s.data.get(b"k"), Some(RedisValue::List(_))));
    assert_eq!(s.data.len(), 1);
}

#[test]
fn store_take_and_insert() {
    let mut st = Store::new();
    st.insert(b"a".to_vec(), RedisValue::String(RedisString::new(b"1".to_vec())));
    assert!(st.contains_key(b"a"));
    let v = st.take(b"a");
    assert!(matches!(v, Some(RedisValue::String(_))));
    assert!(!st.contains_key(b"a"));
    assert!(st.take(b"a").is_none());
    st.remove(b"a");
    assert_eq!(st.len(), 0);
}

#[test]
fn register_client_once() {
    let mut s = RedisServer::new();
    s.register_client(7);
    s.register_client(7);
    s.register_client(9);
    assert_eq!(s.clients, vec![7, 9]);
}
