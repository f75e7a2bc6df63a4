//! What the server does with one request: read it, run its command by type,
//! and frame the answer.

use vstd::prelude::*;
use vstd::string::*;
use crate::commands::{
    hash_op, list_op, reply_view, set_op, string_op, string_views, HandleHashOp, HandleListOp,
    HandleSetOp, HandleStringOp,
};
use crate::error::{ErrorView, ServerError};
use crate::protocol::{answer_frame, encode_answer, parse_request, Simplify};
use crate::pubsub::{channels_wf, deliveries_view, lowercase, pubsub_op, HandlePubSub};
use crate::redis::ValueView;
use crate::server::RedisServer;
use crate::store::store_wf;
use crate::text::{chars_of, is_text, lines, string_of, trim, trim_chars, words};
use crate::transactions::{transaction_run, HandleTransactions};

verus! {

/// What the server's state is made of, as far as a command can change it:
/// the key space and the channels.
pub struct StateView {
    pub data: Map<Seq<u8>, ValueView>,
    pub channels: Map<Seq<u8>, Seq<u64>>,
}

/// What a request of type `t` with command `c` from client `client` does:
/// the state after it, its answer, the command log lines it writes and the
/// messages it sends.
pub open spec fn type_op(
    s: StateView,
    clients: Seq<u64>,
    t: Seq<char>,
    c: Seq<char>,
    client: u64,
) -> (StateView, Result<Option<Seq<u8>>, ErrorView>, Seq<Seq<char>>, Seq<(u64, Seq<u8>)>) {
    let tt = trim(t);
    let w = words(c);
    if tt == "string"@ {
        let o = string_op(s.data, w);
        (StateView { data: o.0, ..s }, o.1, o.2, seq![])
    } else if tt == "list"@ {
        let o = list_op(s.data, w);
        (StateView { data: o.0, ..s }, o.1, seq![], seq![])
    } else if tt == "hash"@ {
        let o = hash_op(s.data, w);
        (StateView { data: o.0, ..s }, o.1, seq![], seq![])
    } else if tt == "set"@ {
        let o = set_op(s.data, w);
        (StateView { data: o.0, ..s }, o.1, seq![], seq![])
    } else if tt == "transaction"@ {
        let o = transaction_run(s.data, lines(c));
        (StateView { data: o.0, ..s }, Ok(Some(o.1)), o.2, seq![])
    } else if tt == "pubSub"@ {
        if w.len() == 0 {
            (s, Err(ErrorView::InvalidRedisCommand("No Redis command provided"@)), seq![], seq![])
        } else {
            let o = pubsub_op(s.channels, clients, lowercase(w[0]), w, client);
            (StateView { channels: o.0, ..s }, o.1, seq![], o.2)
        }
    } else {
        (
            s,
            Err(
                ErrorView::InvalidRedisType(
                    "Invalid Redis type: "@ + t + ". Valid types: string, list, hash, set"@,
                ),
            ),
            seq![],
            seq![],
        )
    }
}

/// Whether the state of `r` keeps its rules: every stored hash lists no
/// field twice, every stored set no member twice, and every channel has a
/// subscriber and lists none twice.
pub open spec fn server_wf(r: RedisServer) -> bool {
    store_wf(r.data@) && channels_wf(r.channels@)
}

/// The server keeps its rules, whatever has happened to it.
proof fn lemma_server_wf(r: RedisServer)
    requires
        r.data.inv(),
        r.channels.inv(),
    ensures
        server_wf(r),
{
    r.data.lemma_wf();
    r.channels.lemma_wf();
}

/// The state of `r` that commands can change.
pub open spec fn state_of(r: RedisServer) -> StateView {
    StateView { data: r.data@, channels: r.channels@ }
}

/// Runs the command `command` as a command of type `redis_type` for the
/// client `client`: `string`, `list`, `hash`, `set`, `transaction` or
/// `pubSub`. Lines for the command log go to `log`, messages for other
/// clients to `outbox`.
pub fn HandleType(
    redis: &mut RedisServer,
    redis_type: &str,
    command: &str,
    client: u64,
    log: &mut Vec<String>,
    outbox: &mut Vec<(u64, Vec<u8>)>,
) -> (r: Result<Option<Vec<u8>>, ServerError>)
    ensures
        ({
            let o = type_op(
                state_of(*old(redis)),
                old(redis).clients@,
                redis_type@,
                command@,
                client,
            );
            &&& state_of(*final(redis)) == o.0
            &&& reply_view(r) == o.1
            &&& string_views(final(log)@) == string_views(old(log)@) + o.2
            &&& deliveries_view(final(outbox)@) == deliveries_view(old(outbox)@) + o.3
        }),
        final(redis).clients@ == old(redis).clients@,
        server_wf(*final(redis)),
{
    let r = run_type(redis, redis_type, command, client, log, outbox);
    proof {
        use_type_invariant(&redis.data);
        use_type_invariant(&redis.channels);
        lemma_server_wf(*redis);
    }
    r
}

/// Runs the command by its type, as `HandleType` says.
fn run_type(
    redis: &mut RedisServer,
    redis_type: &str,
    command: &str,
    client: u64,
    log: &mut Vec<String>,
    outbox: &mut Vec<(u64, Vec<u8>)>,
) -> (r: Result<Option<Vec<u8>>, ServerError>)
    ensures
        ({
            let o = type_op(
                state_of(*old(redis)),
                old(redis).clients@,
                redis_type@,
                command@,
                client,
            );
            &&& state_of(*final(redis)) == o.0
            &&& reply_view(r) == o.1
            &&& string_views(final(log)@) == string_views(old(log)@) + o.2
            &&& deliveries_view(final(outbox)@) == deliveries_view(old(outbox)@) + o.3
        }),
        final(redis).clients@ == old(redis).clients@,
{
    let ghost s0 = state_of(*redis);
    assert(string_views(old(log)@) + seq![] =~= string_views(old(log)@));
    assert(deliveries_view(old(outbox)@) + seq![] =~= deliveries_view(old(outbox)@));
    let t = trim_chars(&chars_of(redis_type));
    if is_text(&t, "string") {
        HandleStringOp(redis, command, log)
    } else if is_text(&t, "list") {
        HandleListOp(redis, command)
    } else if is_text(&t, "hash") {
        HandleHashOp(redis, command)
    } else if is_text(&t, "set") {
        HandleSetOp(redis, command)
    } else if is_text(&t, "transaction") {
        HandleTransactions(redis, command, log)
    } else if is_text(&t, "pubSub") {
        HandlePubSub(redis, command, client, outbox)
    } else {
        let mut msg = "Invalid Redis type: ".to_string();
        msg.append(redis_type);
        msg.append(". Valid types: string, list, hash, set");
        Err(ServerError::InvalidRedisType(msg))
    }
}

/// Serves one request payload from the client `client`: `Err` where the
/// payload cannot be read, after which the server stops serving that
/// client; otherwise the answer to send, if there is one.
pub fn handle_request(
    redis: &mut RedisServer,
    payload: &[u8],
    client: u64,
    log: &mut Vec<String>,
    outbox: &mut Vec<(u64, Vec<u8>)>,
) -> (r: Result<Option<Vec<u8>>, ServerError>)
    ensures
        match parse_request(payload@) {
            Err(e) => r matches Err(x) && x@ == e && state_of(*final(redis)) == state_of(
                *old(redis),
            ) && final(log)@ == old(log)@ && final(outbox)@ == old(outbox)@,
            Ok((t, c)) => {
                let o = type_op(state_of(*old(redis)), old(redis).clients@, t, c, client);
                &&& state_of(*final(redis)) == o.0
                &&& string_views(final(log)@) == string_views(old(log)@) + o.2
                &&& deliveries_view(final(outbox)@) == deliveries_view(old(outbox)@) + o.3
                &&& r is Ok
                &&& (answer_frame(t, o.1) matches Some(f) ==> r matches Ok(Some(x)) && x@ == f)
                &&& (o.1 is Ok && answer_frame(t, o.1) is None ==> r matches Ok(None))
            },
        },
        final(redis).clients@ == old(redis).clients@,
        server_wf(*final(redis)),
{
    proof {
        use_type_invariant(&redis.data);
        use_type_invariant(&redis.channels);
        lemma_server_wf(*redis);
    }
    let (redis_type, command) = Simplify(payload)?;
    let res = HandleType(redis, redis_type.as_str(), command.as_str(), client, log, outbox);
    Ok(encode_answer(redis_type.as_str(), &res))
}

} // verus!
