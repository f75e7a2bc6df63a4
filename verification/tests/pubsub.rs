use redis_clone::pubsub::{Channels, HandlePubSub};
use redis_clone::server::RedisServer;

fn frame(msg: &[u8]) -> Vec<u8> {
    let mut f = vec![1u8, 1u8];
    f.extend_from_slice(&(msg.len() as u64).to_be_bytes());
    f.extend_from_slice(msg);
    f
}

#[test]
fn subscribe_publish_unsubscribe() {
    let mut s = RedisServer::new();
    s.register_client(1);
    s.register_client(2);
    let mut out = Vec::new();
    assert_eq!(HandlePubSub(&mut s, "subscribe news", 1, &mut out).unwrap(), None);
    HandlePubSub(&mut s, "Subscribe news", 2, &mut out).unwrap();
    HandlePubSub(&mut s, "subscribe news", 2, &mut out).unwrap();
    assert_eq!(s.channels.subscribers(b"news"), vec![1, 2]);
    HandlePubSub(&mut s, "PUBLISH news hello", 9, &mut out).unwrap();
    assert_eq!(out, vec![(1, frame(b"hello")), (2, frame(b"hello"))]);
    HandlePubSub(&mut s, "unsubscribe news", 1, &mut out).unwrap();
    assert_eq!(s.channels.subscribers(b"news"), vec![2]);
    HandlePubSub(&mut s, "unsubscribe news", 2, &mut out).unwrap();
    assert_eq!(s.channels.subscribers(b"news"), Vec::<u64>::new());
    out.clear();
    HandlePubSub(&mut s, "publish news again", 1, &mut out).unwrap();
    assert!(out.is_empty());
}

#[test]
fn publish_stops_at_unconnected_subscriber() {
    let mut s = RedisServer::new();
    s.register_client(1);
    s.register_client(3);
    let mut out = Vec::new();
    HandlePubSub(&mut s, "subscribe c", 1, &mut out).unwrap();
    HandlePubSub(&mut s, "subscribe c", 2, &mut out).unwrap();
    HandlePubSub(&mut s, "subscribe c", 3, &mut out).unwrap();
    HandlePubSub(&mut s, "publish c m", 1, &mut out).unwrap();
    assert_eq!(out, vec![(1, frame(b"m"))]);
}

#[test]
fn pubsub_errors() {
    let mut s = RedisServer::new();
    let mut out = Vec::new();
    let msg = |r: Result<Option<Vec<u8>>, redis_clone::error::ServerError>| r.unwrap_err().message();
    assert_eq!(msg(HandlePubSub(&mut s, "   ", 1, &mut out)), "InvalidRedisCommand : No Redis command provided");
    assert_eq!(msg(HandlePubSub(&mut s, "subscribe", 1, &mut out)), "InvalidRedisCommand : SUBSCRIBE requires a channel");
    assert_eq!(msg(HandlePubSub(&mut s, "publish c", 1, &mut out)), "InvalidRedisCommand : PUBLISH requires a channel and message");
    assert_eq!(msg(HandlePubSub(&mut s, "unsubscribe", 1, &mut out)), "InvalidRedisCommand : UNSUBSCRIBE requires a channel");
    assert_eq!(msg(HandlePubSub(&mut s, "psubscribe c", 1, &mut out)), "InvalidRedisCommand : Unknown Pub/Sub command");
}

#[test]
fn channels_directly() {
    let mut c = Channels::new();
    c.subscribe(b"a".to_vec(), 5);
    c.subscribe(b"b".to_vec(), 5);
    c.unsubscribe(b"a".to_vec(), 6);
    assert_eq!(c.subscribers(b"a"), vec![5]);
    c.unsubscribe(b"a".to_vec(), 5);
    assert!(c.subscribers(b"a").is_empty());
    assert_eq!(c.subscribers(b"b"), vec![5]);
}

#[test]
fn broadcast_and_publish_on_server() {
    let mut s = RedisServer::new();
    s.register_client(4);
    s.subscribe(b"ch".to_vec(), 4);
    assert_eq!(s.publish(b"ch".to_vec(), b"x".to_vec()), vec![(4, frame(b"x"))]);
    assert_eq!(s.broadcast(&vec![4, 8, 4], b"y"), vec![(4, frame(b"y"))]);
    s.unsubscribe(b"ch".to_vec(), 4);
    assert!(s.publish(b"ch".to_vec(), b"x".to_vec()).is_empty());
}

#[test]
fn subscribe_then_unsubscribe_restores_channel_with_other_subscribers() {
    let mut s = RedisServer::new();
    let mut out = Vec::new();
    HandlePubSub(&mut s, "subscribe news", 1, &mut out).unwrap();
    HandlePubSub(&mut s, "subscribe news", 3, &mut out).unwrap();
    assert_eq!(HandlePubSub(&mut s, "SUBSCRIBE news", 2, &mut out).unwrap(), None);
    assert_eq!(s.channels.subscribers(b"news"), vec![1, 3, 2]);
    assert_eq!(HandlePubSub(&mut s, "UNSUBSCRIBE news", 2, &mut out).unwrap(), None);
    assert_eq!(s.channels.subscribers(b"news"), vec![1, 3]);
    assert!(out.is_empty());
}
