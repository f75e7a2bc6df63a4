use redis_clone::server::RedisServer;
use redis_clone::transactions::HandleTransactions;

#[test]
fn transaction_runs_lines_in_order() {
    let mut s = RedisServer::new();
    let mut log = Vec::new();
    let q = "string set a 1\nstring get a\nstring append a 2\nstring get a\n";
    let r = HandleTransactions(&mut s, q, &mut log).unwrap().unwrap();
    assert_eq!(r, b"OK\n1\nOK\n12\n".to_vec());
    assert_eq!(log, vec!["set a 1".to_string()]);
}

#[test]
fn transaction_reports_errors_per_line() {
    let mut s = RedisServer::new();
    let mut log = Vec::new();
    let q = "string get x\nfoo bar\nlist\nset screate s\r\nset sadd s m";
    let r = HandleTransactions(&mut s, q, &mut log).unwrap().unwrap();
    let expect = "NoRedisKey : x\nInvalidRedisType : Invalid Redis type in transaction: foo\nInvalidRedisCommand : No Redis command provided\nOK\nOK\n";
    assert_eq!(String::from_utf8(r).unwrap(), expect);
    assert!(s.key_exists(b"s"));
}

#[test]
fn empty_transaction_answers_nothing() {
    let mut s = RedisServer::new();
    let mut log = Vec::new();
    assert_eq!(HandleTransactions(&mut s, "", &mut log).unwrap(), Some(Vec::new()));
}
