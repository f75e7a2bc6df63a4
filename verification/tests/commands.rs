use redis_clone::commands::{
    get_value, GetRedisHash, GetRedisHashRef, GetRedisList, GetRedisListRef, GetRedisSet,
    GetRedisSetRef, GetRedisString, GetRedisStringRef, HandleHashOp, HandleListOp, HandleSetOp,
    HandleStringOp,
};
use redis_clone::error::ServerError;
use redis_clone::redis::{RedisList, RedisString, RedisValue};
use redis_clone::server::RedisServer;

fn err_text(r: Result<Option<Vec<u8>>, ServerError>) -> String {
    match r {
        Err(e) => e.message(),
        Ok(_) => panic!("expected an error"),
    }
}

fn be(n: u64) -> Vec<u8> {
    n.to_be_bytes().to_vec()
}

#[test]
fn string_set_get_append_len() {
    let mut s = RedisServer::new();
    let mut log = Vec::new();
    assert_eq!(HandleStringOp(&mut s, "set k hello", &mut log).unwrap(), None);
    assert_eq!(log, vec!["set k hello".to_string()]);
    assert_eq!(HandleStringOp(&mut s, "get k", &mut log).unwrap(), Some(b"hello".to_vec()));
    assert_eq!(HandleStringOp(&mut s, "append k !!", &mut log).unwrap(), None);
    assert_eq!(HandleStringOp(&mut s, "  get   k ", &mut log).unwrap(), Some(b"hello!!".to_vec()));
    assert_eq!(HandleStringOp(&mut s, "len k", &mut log).unwrap(), Some(be(7)));
    assert_eq!(log.len(), 1);
}

#[test]
fn string_errors() {
    let mut s = RedisServer::new();
    let mut log = Vec::new();
    assert_eq!(err_text(HandleStringOp(&mut s, "", &mut log)), "InvalidRedisCommand : No Redis command provided");
    assert_eq!(err_text(HandleStringOp(&mut s, "set k", &mut log)), "InvalidRedisCommand : set requires a key and value");
    assert_eq!(err_text(HandleStringOp(&mut s, "get", &mut log)), "InvalidRedisCommand : get requires a key");
    assert_eq!(err_text(HandleStringOp(&mut s, "append k", &mut log)), "InvalidRedisCommand : append requires a key and value");
    assert_eq!(err_text(HandleStringOp(&mut s, "len", &mut log)), "InvalidRedisCommand : len requires a key");
    assert_eq!(err_text(HandleStringOp(&mut s, "get nokey", &mut log)), "NoRedisKey : nokey");
    assert_eq!(err_text(HandleStringOp(&mut s, "frob k", &mut log)), "InvalidRedisCommand : command frob not recognized");
    s.create_list(b"l".to_vec());
    assert_eq!(err_text(HandleStringOp(&mut s, "get l", &mut log)), "InvalidRedisType : Redis key does not contain a string");
    assert_eq!(err_text(HandleStringOp(&mut s, "append l x", &mut log)), "InvalidRedisType : Redis key does not contain a string");
    assert!(s.key_exists(b"l"));
    assert!(log.is_empty());
}

#[test]
fn string_keys_are_utf8_bytes() {
    let mut s = RedisServer::new();
    let mut log = Vec::new();
    HandleStringOp(&mut s, "set clé été", &mut log).unwrap();
    assert!(s.key_exists("clé".as_bytes()));
    assert_eq!(HandleStringOp(&mut s, "get clé", &mut log).unwrap(), Some("été".as_bytes().to_vec()));
    assert_eq!(HandleStringOp(&mut s, "len clé", &mut log).unwrap(), Some(be(5)));
}

#[test]
fn list_commands() {
    let mut s = RedisServer::new();
    assert_eq!(HandleListOp(&mut s, "lcreate l").unwrap(), None);
    HandleListOp(&mut s, "rpush l b").unwrap();
    HandleListOp(&mut s, "lpush l a").unwrap();
    HandleListOp(&mut s, "rpush l c").unwrap();
    assert_eq!(HandleListOp(&mut s, "llen l").unwrap(), Some(be(3)));
    assert_eq!(HandleListOp(&mut s, "lindex l 0").unwrap(), Some(b"a".to_vec()));
    assert_eq!(HandleListOp(&mut s, "lindex l +2").unwrap(), Some(b"c".to_vec()));
    assert_eq!(HandleListOp(&mut s, "lset l 1 B").unwrap(), None);
    assert_eq!(HandleListOp(&mut s, "lindex l 1").unwrap(), Some(b"B".to_vec()));
    assert_eq!(HandleListOp(&mut s, "lpop l").unwrap(), Some(b"a".to_vec()));
    assert_eq!(HandleListOp(&mut s, "rpop l").unwrap(), Some(b"c".to_vec()));
    assert_eq!(HandleListOp(&mut s, "lclear l").unwrap(), None);
    assert_eq!(HandleListOp(&mut s, "llen l").unwrap(), Some(be(0)));
    assert_eq!(HandleListOp(&mut s, "lpop l").unwrap(), None);
    assert_eq!(HandleListOp(&mut s, "rpop l").unwrap(), None);
}

#[test]
fn list_errors() {
    let mut s = RedisServer::new();
    s.create_list(b"l".to_vec());
    assert_eq!(err_text(HandleListOp(&mut s, "lcreate")), "InvalidRedisCommand : lcreate requires a key");
    assert_eq!(err_text(HandleListOp(&mut s, "lpush l")), "InvalidRedisCommand : lpush requires a key and value");
    assert_eq!(err_text(HandleListOp(&mut s, "rpush l")), "InvalidRedisCommand : rpush requires a key and value");
    assert_eq!(err_text(HandleListOp(&mut s, "lpop")), "InvalidRedisCommand : lpop requires a key");
    assert_eq!(err_text(HandleListOp(&mut s, "rpop")), "InvalidRedisCommand : rpop requires a key");
    assert_eq!(err_text(HandleListOp(&mut s, "llen")), "InvalidRedisCommand : llen requires a key");
    assert_eq!(err_text(HandleListOp(&mut s, "lindex l")), "InvalidRedisCommand : lindex requires a key and index");
    assert_eq!(err_text(HandleListOp(&mut s, "lindex l x")), "InvalidRedisCommand : lindex index must be a valid number");
    assert_eq!(err_text(HandleListOp(&mut s, "lindex l -1")), "InvalidRedisCommand : lindex index must be a valid number");
    assert_eq!(err_text(HandleListOp(&mut s, "lindex l 0")), "InvalidRedisCommand : list index out of bounds");
    assert_eq!(err_text(HandleListOp(&mut s, "lset l 0")), "InvalidRedisCommand : lset requires a key, index and value");
    assert_eq!(err_text(HandleListOp(&mut s, "lset l + v")), "InvalidRedisCommand : lset index must be a valid number");
    assert_eq!(err_text(HandleListOp(&mut s, "lset l 0 v")), "InvalidRedisCommand : list index out of bounds");
    assert_eq!(err_text(HandleListOp(&mut s, "lclear")), "InvalidRedisCommand : lclear requires a key");
    assert_eq!(err_text(HandleListOp(&mut s, "lpush m v")), "NoRedisKey : m");
    assert_eq!(err_text(HandleListOp(&mut s, "lindex m 99999999999999999999999")), "InvalidRedisCommand : lindex index must be a valid number");
    assert_eq!(err_text(HandleListOp(&mut s, "lrange l")), "InvalidRedisCommand : command lrange not recognized");
    s.create_string(b"t".to_vec(), b"x".to_vec());
    assert_eq!(err_text(HandleListOp(&mut s, "rpush t v")), "InvalidRedisType : Redis key does not contain a list");
    assert_eq!(err_text(HandleListOp(&mut s, "llen t")), "InvalidRedisType : Redis key does not contain a list");
}

#[test]
fn hash_commands() {
    let mut s = RedisServer::new();
    HandleHashOp(&mut s, "hcreate h").unwrap();
    assert_eq!(HandleHashOp(&mut s, "hset h f1 v1").unwrap(), None);
    HandleHashOp(&mut s, "hset h f2 v2").unwrap();
    assert_eq!(HandleHashOp(&mut s, "hget h f1").unwrap(), Some(b"v1".to_vec()));
    assert_eq!(HandleHashOp(&mut s, "hexists h f2").unwrap(), Some(vec![1u8]));
    assert_eq!(HandleHashOp(&mut s, "hexists h f3").unwrap(), Some(vec![0u8]));
    assert_eq!(HandleHashOp(&mut s, "hlen h").unwrap(), Some(be(2)));
    let mut keys = be(2);
    keys.extend_from_slice(b"f1");
    keys.extend_from_slice(&be(2));
    keys.extend_from_slice(b"f2");
    assert_eq!(HandleHashOp(&mut s, "hkeys h").unwrap(), Some(keys));
    let mut values = be(2);
    values.extend_from_slice(b"v1");
    values.extend_from_slice(&be(2));
    values.extend_from_slice(b"v2");
    assert_eq!(HandleHashOp(&mut s, "hvalues h").unwrap(), Some(values));
    assert_eq!(HandleHashOp(&mut s, "hdel h f1").unwrap(), None);
    assert_eq!(HandleHashOp(&mut s, "hexists h f1").unwrap(), Some(vec![0u8]));
    assert_eq!(HandleHashOp(&mut s, "hclear h").unwrap(), None);
    assert_eq!(HandleHashOp(&mut s, "hlen h").unwrap(), Some(be(0)));
    assert_eq!(HandleHashOp(&mut s, "hkeys h").unwrap(), Some(Vec::new()));
}

#[test]
fn hash_errors() {
    let mut s = RedisServer::new();
    s.create_hash(b"h".to_vec());
    assert_eq!(err_text(HandleHashOp(&mut s, "hcreate")), "InvalidRedisCommand : hcreate requires a key");
    assert_eq!(err_text(HandleHashOp(&mut s, "hset h f")), "InvalidRedisCommand : hset requires a key, field and value");
    assert_eq!(err_text(HandleHashOp(&mut s, "hget h")), "InvalidRedisCommand : hget requires a key and field");
    assert_eq!(err_text(HandleHashOp(&mut s, "hexists h")), "InvalidRedisCommand : hexists requires a key and field");
    assert_eq!(err_text(HandleHashOp(&mut s, "hdel h")), "InvalidRedisCommand : hdel requires a key and field");
    assert_eq!(err_text(HandleHashOp(&mut s, "hlen")), "InvalidRedisCommand : hlen requires a key");
    assert_eq!(err_text(HandleHashOp(&mut s, "hclear")), "InvalidRedisCommand : hclear requires a key");
    assert_eq!(err_text(HandleHashOp(&mut s, "hkeys")), "InvalidRedisCommand : hkeys requires a key");
    assert_eq!(err_text(HandleHashOp(&mut s, "hvalues")), "InvalidRedisCommand : hvalues requires a key");
    assert_eq!(err_text(HandleHashOp(&mut s, "hget h nope")), "InvalidRedisCommand : hash field does not exist");
    assert_eq!(err_text(HandleHashOp(&mut s, "hget x f")), "NoRedisKey : x");
    assert_eq!(err_text(HandleHashOp(&mut s, "hmget h")), "InvalidRedisCommand : command hmget not recognized");
    s.create_list(b"l".to_vec());
    assert_eq!(err_text(HandleHashOp(&mut s, "hset l f v")), "InvalidRedisType : Redis key does not contain a hash");
    assert_eq!(err_text(HandleHashOp(&mut s, "hkeys l")), "InvalidRedisType : Redis key does not contain a hash");
}

#[test]
fn set_commands() {
    let mut s = RedisServer::new();
    HandleSetOp(&mut s, "screate s").unwrap();
    HandleSetOp(&mut s, "sadd s a").unwrap();
    HandleSetOp(&mut s, "sadd s b").unwrap();
    HandleSetOp(&mut s, "sadd s a").unwrap();
    assert_eq!(HandleSetOp(&mut s, "slen s").unwrap(), Some(be(2)));
    assert_eq!(HandleSetOp(&mut s, "scontains s a").unwrap(), Some(vec![1u8]));
    let mut vals = be(2);
    vals.extend_from_slice(&be(1));
    vals.extend_from_slice(b"a");
    vals.extend_from_slice(&be(1));
    vals.extend_from_slice(b"b");
    assert_eq!(HandleSetOp(&mut s, "svalues s").unwrap(), Some(vals));
    HandleSetOp(&mut s, "srem s a").unwrap();
    assert_eq!(HandleSetOp(&mut s, "scontains s a").unwrap(), Some(vec![0u8]));
    HandleSetOp(&mut s, "sclear s").unwrap();
    assert_eq!(HandleSetOp(&mut s, "svalues s").unwrap(), Some(be(0)));
}

#[test]
fn set_errors() {
    let mut s = RedisServer::new();
    assert_eq!(err_text(HandleSetOp(&mut s, "screate")), "InvalidRedisCommand : screate requires a key");
    assert_eq!(err_text(HandleSetOp(&mut s, "sadd s")), "InvalidRedisCommand : sadd requires a key and value");
    assert_eq!(err_text(HandleSetOp(&mut s, "srem s")), "InvalidRedisCommand : srem requires a key and value");
    assert_eq!(err_text(HandleSetOp(&mut s, "scontains s")), "InvalidRedisCommand : scontains requires a key and value");
    assert_eq!(err_text(HandleSetOp(&mut s, "slen")), "InvalidRedisCommand : slen requires a key");
    assert_eq!(err_text(HandleSetOp(&mut s, "sclear")), "InvalidRedisCommand : sclear requires a key");
    assert_eq!(err_text(HandleSetOp(&mut s, "svalues")), "InvalidRedisCommand : svalues requires a key");
    assert_eq!(err_text(HandleSetOp(&mut s, "sadd s a")), "NoRedisKey : s");
    assert_eq!(err_text(HandleSetOp(&mut s, "sunion s")), "InvalidRedisCommand : command sunion not recognized");
    s.create_hash(b"h".to_vec());
    assert_eq!(err_text(HandleSetOp(&mut s, "sadd h a")), "InvalidRedisType : Redis key does not contain a set");
    assert_eq!(err_text(HandleSetOp(&mut s, "slen h")), "InvalidRedisType : Redis key does not contain a set");
}

#[test]
fn typed_accessors() {
    let mut v = RedisValue::String(RedisString::new(b"x".to_vec()));
    assert_eq!(GetRedisStringRef(&v).unwrap().get(), b"x");
    GetRedisString(&mut v).unwrap().append(b"y");
    assert_eq!(GetRedisStringRef(&v).unwrap().get(), b"xy");
    assert!(GetRedisListRef(&v).is_err());
    assert!(GetRedisList(&mut v).is_err());
    assert!(GetRedisHashRef(&v).is_err());
    assert!(GetRedisHash(&mut v).is_err());
    assert!(GetRedisSetRef(&v).is_err());
    assert_eq!(GetRedisSet(&mut v).unwrap_err().message(), "InvalidRedisType : Redis key does not contain a set");
    let mut l = RedisValue::List(RedisList::new());
    GetRedisList(&mut l).unwrap().push_back(b"e".to_vec());
    assert_eq!(GetRedisListRef(&l).unwrap().len(), 1);
}

#[test]
fn get_value_names_missing_key() {
    let mut s = RedisServer::new();
    s.create_string(b"k".to_vec(), b"v".to_vec());
    assert!(get_value(&s, b"k").is_ok());
    assert_eq!(get_value(&s, b"zz").unwrap_err().message(), "NoRedisKey : zz");
    assert_eq!(get_value(&s, &[0xff, b'a']).unwrap_err().message(), "NoRedisKey : \u{fffd}a");
}
