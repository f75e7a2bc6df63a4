use redis_clone::client::{cli_step, finish_request, CliAction, ClientSession, HandleTransaction};
use redis_clone::commands::{HandleHashOp, HandleListOp, HandleSetOp, HandleStringOp};
use redis_clone::dispatch::handle_request;
use redis_clone::persistence::{log_record, ReconstructLogFile};
use redis_clone::protocol::{encode_answer, AnswerRead, ReadStatus, Simplify};
use redis_clone::pubsub::HandlePubSub;
use redis_clone::redis::RedisValue;
use redis_clone::server::RedisServer;
use redis_clone::text::{parse_usize_chars, push_decimal};
use redis_clone::transactions::HandleTransactions;

#[test]
fn law_rpush_rpop_concrete() {
    let mut s = RedisServer::new();
    HandleListOp(&mut s, "lcreate l").unwrap();
    HandleListOp(&mut s, "rpush l a").unwrap();
    HandleListOp(&mut s, "rpush l b").unwrap();
    assert_eq!(HandleListOp(&mut s, "rpop l").unwrap(), Some(b"b".to_vec()));
    HandleListOp(&mut s, "lpush l z").unwrap();
    assert_eq!(HandleListOp(&mut s, "lpop l").unwrap(), Some(b"z".to_vec()));
    assert_eq!(HandleListOp(&mut s, "llen l").unwrap(), Some(1u64.to_be_bytes().to_vec()));
}

#[test]
fn law_hset_hget_concrete() {
    let mut s = RedisServer::new();
    HandleHashOp(&mut s, "hcreate h").unwrap();
    HandleHashOp(&mut s, "hset h f v").unwrap();
    assert_eq!(HandleHashOp(&mut s, "hget h f").unwrap(), Some(b"v".to_vec()));
    HandleHashOp(&mut s, "hdel h f").unwrap();
    assert_eq!(HandleHashOp(&mut s, "hexists h f").unwrap(), Some(vec![0]));
}

#[test]
fn law_sadd_scontains_concrete() {
    let mut s = RedisServer::new();
    HandleSetOp(&mut s, "screate s").unwrap();
    HandleSetOp(&mut s, "sadd s x").unwrap();
    assert_eq!(HandleSetOp(&mut s, "scontains s x").unwrap(), Some(vec![1]));
    HandleSetOp(&mut s, "srem s x").unwrap();
    assert_eq!(HandleSetOp(&mut s, "scontains s x").unwrap(), Some(vec![0]));
}

#[test]
fn law_set_get_concrete() {
    let mut s = RedisServer::new();
    let mut log = Vec::new();
    HandleStringOp(&mut s, "set k 12345", &mut log).unwrap();
    assert_eq!(HandleStringOp(&mut s, "get k", &mut log).unwrap(), Some(b"12345".to_vec()));
    assert_eq!(HandleStringOp(&mut s, "len k", &mut log).unwrap(), Some(5u64.to_be_bytes().to_vec()));
}

#[test]
fn law_subscribe_unsubscribe_restores() {
    let mut s = RedisServer::new();
    let mut out = Vec::new();
    HandlePubSub(&mut s, "subscribe c", 1, &mut out).unwrap();
    HandlePubSub(&mut s, "unsubscribe c", 1, &mut out).unwrap();
    assert!(s.channels.subscribers(b"c").is_empty());
    s.register_client(1);
    s.register_client(2);
    HandlePubSub(&mut s, "subscribe c", 1, &mut out).unwrap();
    HandlePubSub(&mut s, "subscribe c", 2, &mut out).unwrap();
    HandlePubSub(&mut s, "publish c m", 1, &mut out).unwrap();
    assert_eq!(out.iter().map(|d| d.0).collect::<Vec<u64>>(), vec![1, 2]);
}

#[test]
fn law_logged_set_replays_concrete() {
    let mut s = RedisServer::new();
    let mut log = Vec::new();
    HandleStringOp(&mut s, "set name ada", &mut log).unwrap();
    HandleStringOp(&mut s, "set name grace", &mut log).unwrap();
    let file: String = log.iter().map(|l| log_record(l)).collect();
    let store = ReconstructLogFile(&file);
    assert_eq!(store.len(), 1);
    assert!(matches!(store.get(b"name"), Some(RedisValue::String(v)) if v.get() == b"grace"));
}

#[test]
fn law_transaction_queue_roundtrip_concrete() {
    let mut c = ClientSession::new();
    cli_step(&mut c, "multi");
    cli_step(&mut c, "set a 1");
    cli_step(&mut c, "get a");
    let frame = HandleTransaction(&c);
    let (t, q) = Simplify(&frame[8..]).unwrap();
    assert_eq!(t, "transaction");
    let mut s = RedisServer::new();
    let mut log = Vec::new();
    let r = HandleTransactions(&mut s, &q, &mut log).unwrap().unwrap();
    assert_eq!(r, b"OK\n1\n".to_vec());
}

#[test]
fn law_answer_roundtrip_concrete() {
    let r: Result<Option<Vec<u8>>, redis_clone::error::ServerError> = Ok(Some(vec![0, 1, 2]));
    let f = encode_answer("list", &r).unwrap();
    assert!(matches!(ReadStatus(&f, true), AnswerRead::Done(Ok(ref v)) if v == &vec![0, 1, 2]));
}

#[test]
fn law_decimal_roundtrip_concrete() {
    for n in [0u64, 9, 10, 4096, u32::MAX as u64] {
        let mut d = Vec::new();
        push_decimal(&mut d, n);
        assert_eq!(parse_usize_chars(&d), Some(n as usize));
    }
}

#[test]
fn client_and_server_end_to_end() {
    let mut c = ClientSession::new();
    let mut s = RedisServer::new();
    let mut log = Vec::new();
    let mut out = Vec::new();
    for line in ["set k v", "append k w", "get k"] {
        match cli_step(&mut c, line) {
            CliAction::Send(frame, kind) => {
                let answer = handle_request(&mut s, &frame[8..], 1, &mut log, &mut out).unwrap().unwrap();
                finish_request(&mut c, kind, true);
                if line == "get k" {
                    assert!(matches!(ReadStatus(&answer, true), AnswerRead::Done(Ok(ref v)) if v == b"vw"));
                } else {
                    assert!(matches!(ReadStatus(&answer, false), AnswerRead::Done(Ok(_))));
                }
            }
            _ => panic!("expected a request"),
        }
    }
}
