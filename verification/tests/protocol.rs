use redis_clone::codec::{be_bytes_to_u64, bytes_eq, u64_to_be_bytes};
use redis_clone::commands::HandleStringOp;
use redis_clone::dispatch::{handle_request, HandleType};
use redis_clone::error::ServerError;
use redis_clone::protocol::{
    encode_answer, encode_request, frame_request, AnswerRead, CreateBuffer,
    ReadStatus, Simplify,
};
use redis_clone::server::RedisServer;

fn payload(t: &[u8], c: &[u8]) -> Vec<u8> {
    let mut p = (t.len() as u64).to_be_bytes().to_vec();
    p.extend_from_slice(t);
    p.extend_from_slice(&(c.len() as u64).to_be_bytes());
    p.extend_from_slice(c);
    p
}

#[test]
fn be_bytes_roundtrip() {
    let b = u64_to_be_bytes(0x0102030405060708);
    assert_eq!(b, vec![1, 2, 3, 4, 5, 6, 7, 8]);
    assert_eq!(be_bytes_to_u64(&b, 0), 0x0102030405060708);
    let mut c = vec![9u8];
    c.extend_from_slice(&u64_to_be_bytes(u64::MAX));
    assert_eq!(be_bytes_to_u64(&c, 1), u64::MAX);
    assert!(bytes_eq(b"ab", b"ab"));
    assert!(!bytes_eq(b"ab", b"abc"));
}

#[test]
fn simplify_reads_type_and_command() {
    let (t, c) = Simplify(&payload(b"string", b"set a b")).unwrap();
    assert_eq!(t, "string");
    assert_eq!(c, "set a b");
}

#[test]
fn simplify_errors() {
    let msg = |op: &[u8]| Simplify(op).unwrap_err().message();
    assert_eq!(msg(&[0, 0, 0]), "InvalidRedisCommand : Invalid operation: missing type length");
    let mut p = 10u64.to_be_bytes().to_vec();
    p.extend_from_slice(b"abc");
    assert_eq!(msg(&p), "InvalidRedisCommand : Invalid operation: type length exceeds packet size");
    let huge = u64::MAX.to_be_bytes().to_vec();
    assert_eq!(msg(&huge), "InvalidRedisCommand : Invalid operation: type length exceeds packet size");
    let mut p = 1u64.to_be_bytes().to_vec();
    p.push(0xff);
    p.extend_from_slice(&0u64.to_be_bytes());
    assert_eq!(msg(&p), "InvalidRedisCommand : Redis type contains invalid UTF-8");
    let mut p = 1u64.to_be_bytes().to_vec();
    p.push(b's');
    p.extend_from_slice(&[0, 0]);
    assert_eq!(msg(&p), "InvalidRedisCommand : Invalid operation: missing command length");
    let mut p = 1u64.to_be_bytes().to_vec();
    p.push(b's');
    p.extend_from_slice(&5u64.to_be_bytes());
    p.extend_from_slice(b"ab");
    assert_eq!(msg(&p), "InvalidRedisCommand : Invalid operation: command length exceeds packet size");
    let p = payload(b"s", &[0xc3]);
    assert_eq!(msg(&p), "InvalidRedisCommand : Command contains invalid UTF-8");
}

#[test]
fn request_encoding_roundtrip() {
    let f = encode_request("list", "lpush k v");
    let len = u64::from_be_bytes(f[0..8].try_into().unwrap()) as usize;
    assert_eq!(len, f.len() - 8);
    assert_eq!(&f[8..], &payload(b"list", b"lpush k v")[..]);
    let (t, c) = Simplify(&f[8..]).unwrap();
    assert_eq!((t.as_str(), c.as_str()), ("list", "lpush k v"));
    let (tb, tl, db, dl) = CreateBuffer("hash", "hlen h");
    assert_eq!(tb, b"hash".to_vec());
    assert_eq!(tl, 4u64.to_be_bytes().to_vec());
    assert_eq!(db, b"hlen h".to_vec());
    assert_eq!(dl, 6u64.to_be_bytes().to_vec());
    assert_eq!(frame_request(&tb, &tl, &db, &dl), encode_request("hash", "hlen h"));
}

#[test]
fn answers_are_framed() {
    let ok_value: Result<Option<Vec<u8>>, ServerError> = Ok(Some(b"xy".to_vec()));
    let mut expect = vec![1u8];
    expect.extend_from_slice(&2u64.to_be_bytes());
    expect.extend_from_slice(b"xy");
    assert_eq!(encode_answer("string", &ok_value), Some(expect));
    let ok_none: Result<Option<Vec<u8>>, ServerError> = Ok(None);
    assert_eq!(encode_answer("string", &ok_none), Some(vec![1u8]));
    assert_eq!(encode_answer(" pubSub ", &ok_none), None);
    let err: Result<Option<Vec<u8>>, ServerError> = Err(ServerError::NoRedisKey("k".to_string()));
    let text = b"NoRedisKey : k";
    let mut expect = vec![0u8];
    expect.extend_from_slice(&(text.len() as u64).to_be_bytes());
    expect.extend_from_slice(text);
    assert_eq!(encode_answer("pubSub", &err), Some(expect));
}

#[test]
fn read_status_incrementally() {
    assert!(matches!(ReadStatus(&[], true), AnswerRead::NeedMore(1)));
    assert!(matches!(ReadStatus(&[1], false), AnswerRead::Done(Ok(ref v)) if v.is_empty()));
    assert!(matches!(ReadStatus(&[1], true), AnswerRead::NeedMore(8)));
    let mut f = vec![1u8];
    f.extend_from_slice(&3u64.to_be_bytes());
    assert!(matches!(ReadStatus(&f, true), AnswerRead::NeedMore(3)));
    f.extend_from_slice(b"abc");
    assert!(matches!(ReadStatus(&f, true), AnswerRead::Done(Ok(ref v)) if v == b"abc"));
    let mut e = vec![0u8];
    e.extend_from_slice(&4u64.to_be_bytes());
    e.extend_from_slice(b"oops");
    match ReadStatus(&e, false) {
        AnswerRead::Done(Err(err)) => assert_eq!(err.message(), "ServerRsponseError : oops"),
        _ => panic!("expected an error"),
    }
    let mut g = vec![0u8];
    g.extend_from_slice(&1u64.to_be_bytes());
    g.push(0xff);
    assert!(matches!(ReadStatus(&g, true), AnswerRead::Done(Err(ServerError::ServerResponse(_)))));
    match ReadStatus(&[7], true) {
        AnswerRead::Done(Err(err)) => assert_eq!(err.message(), "ServerRsponseError : Invalid status code: 7"),
        _ => panic!("expected an error"),
    }
    match ReadStatus(&[200], false) {
        AnswerRead::Done(Err(err)) => assert_eq!(err.message(), "ServerRsponseError : Invalid status code: 200"),
        _ => panic!("expected an error"),
    }
}

#[test]
fn utf8_conversion() {
    let mut e = vec![0u8];
    e.extend_from_slice(&4u64.to_be_bytes());
    e.extend_from_slice("día".as_bytes());
    match ReadStatus(&e, true) {
        AnswerRead::Done(Err(err)) => assert_eq!(err.message(), "ServerRsponseError : día"),
        _ => panic!("expected an error"),
    }
    let mut g = vec![0u8];
    g.extend_from_slice(&3u64.to_be_bytes());
    g.extend_from_slice(&[0xed, 0xa0, 0x80]);
    match ReadStatus(&g, true) {
        AnswerRead::Done(Err(err)) => assert!(err.message().starts_with("ServerRsponseError : ")),
        _ => panic!("expected an error"),
    }
}

#[test]
fn handle_type_dispatches() {
    let mut s = RedisServer::new();
    let mut log = Vec::new();
    let mut out = Vec::new();
    assert_eq!(HandleType(&mut s, " string ", "set a 1", 1, &mut log, &mut out).unwrap(), None);
    assert_eq!(HandleType(&mut s, "string", "get a", 1, &mut log, &mut out).unwrap(), Some(b"1".to_vec()));
    HandleType(&mut s, "list", "lcreate l", 1, &mut log, &mut out).unwrap();
    HandleType(&mut s, "hash", "hcreate h", 1, &mut log, &mut out).unwrap();
    HandleType(&mut s, "set", "screate s", 1, &mut log, &mut out).unwrap();
    assert_eq!(s.data.len(), 4);
    let r = HandleType(&mut s, "strings", "get a", 1, &mut log, &mut out);
    assert_eq!(r.unwrap_err().message(), "InvalidRedisType : Invalid Redis type: strings. Valid types: string, list, hash, set");
    let r = HandleType(&mut s, "transaction", "string get a\nlist llen l\n", 1, &mut log, &mut out);
    let mut expect = b"1\n".to_vec();
    expect.extend_from_slice(&0u64.to_be_bytes());
    expect.push(b'\n');
    assert_eq!(r.unwrap(), Some(expect));
    s.register_client(1);
    HandleType(&mut s, "pubSub", "SUBSCRIBE news", 1, &mut log, &mut out).unwrap();
    HandleType(&mut s, "pubSub", "publish news hi", 2, &mut log, &mut out).unwrap();
    assert_eq!(out.len(), 1);
    assert_eq!(out[0].0, 1);
    let r = HandleType(&mut s, "pubSub", "", 1, &mut log, &mut out);
    assert_eq!(r.unwrap_err().message(), "InvalidRedisCommand : No Redis command provided");
    assert_eq!(log, vec!["set a 1".to_string()]);
}

#[test]
fn handle_request_end_to_end() {
    let mut s = RedisServer::new();
    let mut log = Vec::new();
    let mut out = Vec::new();
    let f = encode_request("string", "set k v");
    assert_eq!(handle_request(&mut s, &f[8..], 3, &mut log, &mut out).unwrap(), Some(vec![1u8]));
    let f = encode_request("string", "get k");
    let answer = handle_request(&mut s, &f[8..], 3, &mut log, &mut out).unwrap().unwrap();
    assert!(matches!(ReadStatus(&answer, true), AnswerRead::Done(Ok(ref v)) if v == b"v"));
    let f = encode_request("string", "get nothing");
    let answer = handle_request(&mut s, &f[8..], 3, &mut log, &mut out).unwrap().unwrap();
    match ReadStatus(&answer, true) {
        AnswerRead::Done(Err(e)) => assert_eq!(e.message(), "ServerRsponseError : NoRedisKey : nothing"),
        _ => panic!("expected an error"),
    }
    let f = encode_request("pubSub", "subscribe c");
    assert_eq!(handle_request(&mut s, &f[8..], 3, &mut log, &mut out).unwrap(), None);
    assert!(handle_request(&mut s, &[1, 2], 3, &mut log, &mut out).is_err());
    let mut log2 = Vec::new();
    HandleStringOp(&mut s, "get k", &mut log2).unwrap();
    assert!(log2.is_empty());
}
