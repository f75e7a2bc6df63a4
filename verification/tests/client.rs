use redis_clone::client::{
    cli_step, command_table, finish_request, join_from, queue_chars, CliAction, ClientSession,
    HandleTransaction, ModeHandler, ReplyKind,
};
use redis_clone::protocol::{encode_request, Simplify};

fn printed(a: CliAction) -> String {
    match a {
        CliAction::Print(s) => s,
        _ => panic!("expected a line to print"),
    }
}

fn sent(a: CliAction) -> (Vec<u8>, ReplyKind) {
    match a {
        CliAction::Send(f, k) => (f, k),
        _ => panic!("expected a request"),
    }
}

#[test]
fn plain_commands_become_requests() {
    let mut s = ClientSession::new();
    assert!(matches!(cli_step(&mut s, "   "), CliAction::Nothing));
    assert_eq!(sent(cli_step(&mut s, "SET k v")), (encode_request("string", "set k v"), ReplyKind::Done));
    assert_eq!(sent(cli_step(&mut s, "get k")), (encode_request("string", "get k"), ReplyKind::Value));
    assert_eq!(sent(cli_step(&mut s, "lcreate l")), (encode_request("list", "lcreate l "), ReplyKind::Done));
    assert_eq!(sent(cli_step(&mut s, "lindex l 007")), (encode_request("list", "lindex l 7"), ReplyKind::Value));
    assert_eq!(sent(cli_step(&mut s, "lset l +1 v")), (encode_request("list", "lset l 1 v"), ReplyKind::Done));
    assert_eq!(sent(cli_step(&mut s, "hset h f v")), (encode_request("hash", "hset h f v"), ReplyKind::Done));
    assert_eq!(sent(cli_step(&mut s, "svalues s")), (encode_request("set", "svalues s"), ReplyKind::Value));
    assert!(matches!(cli_step(&mut s, "quit"), CliAction::Quit));
    assert!(matches!(cli_step(&mut s, "EXIT"), CliAction::Quit));
}

#[test]
fn usage_and_unknown() {
    let mut s = ClientSession::new();
    assert_eq!(printed(cli_step(&mut s, "set k")), "Usage: SET key value");
    assert_eq!(printed(cli_step(&mut s, "hget h")), "Usage: HGET key field");
    assert_eq!(printed(cli_step(&mut s, "lindex l x")), "(error) index must be a number");
    assert_eq!(printed(cli_step(&mut s, "subscribe")), "Usage: SUBSCRIBE channel");
    assert_eq!(printed(cli_step(&mut s, "publish c")), "Usage: PUBLISH channel message");
    assert_eq!(printed(cli_step(&mut s, "unsubscribe a b")), "Usage: UNSUBSCRIBE channel");
    assert_eq!(printed(cli_step(&mut s, "multi now")), "Usage: MULTI");
    assert_eq!(printed(cli_step(&mut s, "Frob x")), "Unknown command: Frob");
}

#[test]
fn transaction_mode_queues_and_exec_sends() {
    let mut s = ClientSession::new();
    assert_eq!(printed(cli_step(&mut s, "exec")), "(error) EXEC without MULTI");
    assert_eq!(printed(cli_step(&mut s, "discard")), "(error) DISCARD without MULTI");
    assert_eq!(printed(cli_step(&mut s, "multi")), "OK");
    assert_eq!(printed(cli_step(&mut s, "multi")), "(error) MULTI calls cannot be nested");
    assert_eq!(printed(cli_step(&mut s, "set a 1")), "QUEUED");
    assert_eq!(printed(cli_step(&mut s, "lindex l 03")), "QUEUED");
    assert_eq!(s.transaction_queue, vec!["string set a 1".to_string(), "list lindex l 03".to_string()]);
    let (frame, kind) = sent(cli_step(&mut s, "EXEC"));
    assert_eq!(kind, ReplyKind::Exec);
    assert_eq!(frame, encode_request("transaction", "string set a 1\nlist lindex l 03\n"));
    assert!(!s.transaction_mode);
    assert!(s.transaction_queue.is_empty());
    cli_step(&mut s, "multi");
    cli_step(&mut s, "get a");
    assert_eq!(printed(cli_step(&mut s, "discard")), "OK");
    assert!(s.transaction_queue.is_empty());
}

#[test]
fn subscription_mode_allows_only_pubsub() {
    let mut s = ClientSession::new();
    let (f, k) = sent(cli_step(&mut s, "subscribe news"));
    assert_eq!(f, encode_request("pubSub", "subscribe news"));
    assert_eq!(k, ReplyKind::Subscribe);
    assert!(!s.subscription_mode);
    finish_request(&mut s, k, true);
    assert!(s.subscription_mode);
    assert_eq!(printed(cli_step(&mut s, "get k")), "(error) Can't execute 'get' while in subscription mode");
    let (f, k) = sent(cli_step(&mut s, "publish news hello  world"));
    assert_eq!(f, encode_request("pubSub", "publish news hello world"));
    assert_eq!(k, ReplyKind::Publish);
    let (f, k) = sent(cli_step(&mut s, "unsubscribe news"));
    assert_eq!(f, encode_request("pubSub", "unsubscribe news"));
    finish_request(&mut s, k, false);
    assert!(s.subscription_mode);
    finish_request(&mut s, k, true);
    assert!(!s.subscription_mode);
}

#[test]
fn mode_handler_directly() {
    let mut s = ClientSession::new();
    assert_eq!(ModeHandler(&mut s, "k v", "string", "set"), None);
    s.transaction_mode = true;
    assert_eq!(ModeHandler(&mut s, "k v", "string", "set"), Some("QUEUED".to_string()));
    assert_eq!(s.transaction_queue, vec!["string set k v".to_string()]);
    s.transaction_mode = false;
    s.subscription_mode = true;
    assert_eq!(ModeHandler(&mut s, "c m", "pubsub", "publish"), None);
    assert!(ModeHandler(&mut s, "k", "hash", "hlen").is_some());
}

#[test]
fn queued_transaction_frame() {
    let mut s = ClientSession::new();
    s.transaction_queue = vec!["string get a".to_string(), "set slen s".to_string()];
    let f = HandleTransaction(&s);
    let (t, c) = Simplify(&f[8..]).unwrap();
    assert_eq!(t, "transaction");
    assert_eq!(c, "string get a\nset slen s\n");
    assert_eq!(queue_chars(&s.transaction_queue).into_iter().collect::<String>(), c);
}

#[test]
fn table_and_join() {
    let e = command_table(&"lset".chars().collect()).unwrap();
    assert_eq!((e.kind, e.arity, e.value, e.index), ("list", 4, false, true));
    assert!(command_table(&"nope".chars().collect()).is_none());
    let ws: Vec<Vec<char>> = vec!["a".chars().collect(), "bc".chars().collect(), "d".chars().collect()];
    assert_eq!(join_from(&ws, 1).into_iter().collect::<String>(), "bc d");
    assert!(join_from(&ws, 3).is_empty());
}
