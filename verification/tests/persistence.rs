use redis_clone::commands::{HandleHashOp, HandleListOp, HandleSetOp};
use redis_clone::server::RedisServer;
use redis_clone::persistence::{log_record, try_reconstruct, LogBatch, ReconstructLogFile};
use redis_clone::redis::RedisValue;

#[test]
fn log_record_adds_space_and_newline() {
    assert_eq!(log_record("set a 1"), "set a 1 \n");
}

#[test]
fn reconstruct_replays_each_kind() {
    let log = "set a 1 \nappend a 2\nlcreate l\nrpush l x\nlpush l w\nrpush l y\nlpop l\nlset l 1 z\n\
hcreate h\nhset h f v\nhset h g u\nhdel h f\nscreate s\nsadd s m\nsadd s n\nsrem s m\nget a\nlen a\nunknown x y\n";
    let store = ReconstructLogFile(log);
    assert_eq!(store.len(), 4);
    match store.get(b"a") {
        Some(RedisValue::String(s)) => assert_eq!(s.get(), b"2"),
        _ => panic!("expected a string"),
    }
    match store.get(b"l") {
        Some(RedisValue::List(l)) => {
            assert_eq!(l.len(), 2);
            assert_eq!(l.get(0), Some(&b"x".to_vec()));
            assert_eq!(l.get(1), Some(&b"z".to_vec()));
        }
        _ => panic!("expected a list"),
    }
    match store.get(b"h") {
        Some(RedisValue::Hash(h)) => {
            assert_eq!(h.keys(), vec![b"g".to_vec()]);
        }
        _ => panic!("expected a hash"),
    }
    match store.get(b"s") {
        Some(RedisValue::SetValue(s)) => assert_eq!(s.values(), vec![b"n".to_vec()]),
        _ => panic!("expected a set"),
    }
}

#[test]
fn reconstruct_clears_and_pops() {
    let log = "lcreate l\nrpush l a\nrpop l\nrpop l\nlclear l\nhcreate h\nhset h a b\nhclear h\nscreate s\nsadd s q\nsclear s\r\n";
    let store = ReconstructLogFile(log);
    assert!(matches!(store.get(b"l"), Some(RedisValue::List(l)) if l.len() == 0));
    assert!(matches!(store.get(b"h"), Some(RedisValue::Hash(h)) if h.len() == 0));
    assert!(matches!(store.get(b"s"), Some(RedisValue::SetValue(s)) if s.len() == 0));
}

#[test]
fn replay_refuses_lines_it_cannot_take() {
    assert!(try_reconstruct("").is_some());
    assert!(try_reconstruct("set a 1\n\n").is_none());
    assert!(try_reconstruct("set a\n").is_none());
    assert!(try_reconstruct("lpush nokey v\n").is_none());
    assert!(try_reconstruct("lcreate l\nlset l x v\n").is_none());
    assert!(try_reconstruct("lcreate l\nlset l 0\n").is_none());
    assert!(try_reconstruct("hset nokey f v\n").is_none());
    assert!(try_reconstruct("lcreate\n").is_none());
    assert!(try_reconstruct("get\nlen\n").is_some());
}

#[test]
fn replay_ignores_wrong_kind() {
    let store = try_reconstruct("set a 1\nrpush a x\nhset a f v\nsadd a m\n").unwrap();
    assert!(matches!(store.get(b"a"), Some(RedisValue::String(s)) if s.get() == b"1"));
}

#[test]
fn log_batch_collects_records() {
    let mut b = LogBatch::start("set a 1");
    assert!(!b.add("set b 2"));
    assert_eq!(b.bytes(), b"set a 1\nset b 2\n");
    let big = "x".repeat(65530);
    assert!(b.add(&big));
}

#[test]
fn replay_matches_running_the_commands() {
    let mut live = RedisServer::new();
    let lines = ["lcreate l", "rpush l a", "lpush l b", "rpop l", "hcreate h", "hset h f v", "screate s", "sadd s m", "sadd s n", "srem s m"];
    for line in lines {
        let r = if line.starts_with('l') || line.starts_with('r') {
            HandleListOp(&mut live, line)
        } else if line.starts_with('h') {
            HandleHashOp(&mut live, line)
        } else {
            HandleSetOp(&mut live, line)
        };
        assert!(r.is_ok());
    }
    let log: String = lines.iter().map(|l| log_record(l)).collect();
    let store = ReconstructLogFile(&log);
    match (store.get(b"l"), live.data.get(b"l")) {
        (Some(RedisValue::List(a)), Some(RedisValue::List(b))) => {
            assert_eq!(a.len(), 1);
            assert_eq!(a.len(), b.len());
            assert_eq!(a.get(0), b.get(0));
        }
        _ => panic!("expected lists"),
    }
    match (store.get(b"h"), live.data.get(b"h")) {
        (Some(RedisValue::Hash(a)), Some(RedisValue::Hash(b))) => assert_eq!(a.keys(), b.keys()),
        _ => panic!("expected hashes"),
    }
    match (store.get(b"s"), live.data.get(b"s")) {
        (Some(RedisValue::SetValue(a)), Some(RedisValue::SetValue(b))) => {
            assert_eq!(a.values(), b.values())
        }
        _ => panic!("expected sets"),
    }
}
