//! Properties that span several operations of the server and the client.

use vstd::prelude::*;
use vstd::utf8::*;
use crate::client::{
    cli_step_spec, cmd_info, lemma_cmd_name_distinct, queue_text, transaction_frame, ActionView,
    ReplyKind, SessionView,
};
use crate::pubsub::lowercase;
use crate::codec::{be_u64, lemma_be_roundtrip, u64_be};
use crate::commands::{flag, hash_op, list_op, lookup, set_op, string_op, ub};
use crate::error::{error_text, ErrorView};
use crate::persistence::{replay, replay_step};
use crate::protocol::{answer_frame, read_answer, AnswerView};
use crate::pubsub::{
    channels_subscribe, channels_unsubscribe, channels_wf, pubsub_op, reached, subscribers_of,
    with_subscriber, without_subscriber,
};
use crate::redis::{
    hash_keys, hash_lookup, hash_put, hash_wf, hash_without, lemma_hash_put, lemma_hash_without,
    lemma_set_remove, set_add, set_remove, ValueView,
};
use crate::text::{
    is_word, join_words, lemma_words_of_join, lines, parse_usize, split_nl, strip_cr, words,
};

verus! {

broadcast use encode_utf8_decode_utf8, encode_utf8_valid_utf8;

/// A `get` of a key answers the string that a `set` of it stored, and a
/// `len` answers its length.
pub proof fn law_string_set_then_get(m: Map<Seq<u8>, ValueView>, k: Seq<char>, v: Seq<char>)
    ensures
        string_op(string_op(m, seq!["set"@, k, v]).0, seq!["get"@, k]).1 == Ok::<
            Option<Seq<u8>>,
            ErrorView,
        >(Some(ub(v))),
        string_op(string_op(m, seq!["set"@, k, v]).0, seq!["len"@, k]).1 == Ok::<
            Option<Seq<u8>>,
            ErrorView,
        >(Some(u64_be(ub(v).len() as u64))),
{
    reveal_strlit("set");
    reveal_strlit("get");
    reveal_strlit("append");
    reveal_strlit("len");
    assert("get"@[0] != "set"@[0]);
    assert("len"@[0] != "set"@[0]);
    assert("len"@.len() != "append"@.len());
    assert("get"@.len() != "append"@.len());
}

/// Popping the tail of a list right after pushing a value there gives the
/// value back and leaves the key space as it was.
pub proof fn law_rpush_then_rpop(m: Map<Seq<u8>, ValueView>, k: Seq<char>, v: Seq<char>)
    requires
        m.dom().contains(ub(k)),
        m[ub(k)] is List,
    ensures
        list_op(list_op(m, seq!["rpush"@, k, v]).0, seq!["rpop"@, k]) == (
            m,
            Ok::<Option<Seq<u8>>, ErrorView>(Some(ub(v))),
        ),
{
    reveal_strlit("rpush");
    reveal_strlit("rpop");
    reveal_strlit("lcreate");
    reveal_strlit("lpush");
    reveal_strlit("lpop");
    assert("rpop"@[0] != "lpop"@[0]);
    assert("rpush"@[0] != "lpush"@[0]);
    let l = m[ub(k)]->List_0;
    assert(l.push(ub(v)).drop_last() =~= l);
    assert(m.insert(ub(k), ValueView::List(l.push(ub(v)))).insert(ub(k), ValueView::List(l)) =~= m);
}

/// Popping the head of a list right after pushing a value there gives the
/// value back and leaves the key space as it was.
pub proof fn law_lpush_then_lpop(m: Map<Seq<u8>, ValueView>, k: Seq<char>, v: Seq<char>)
    requires
        m.dom().contains(ub(k)),
        m[ub(k)] is List,
    ensures
        list_op(list_op(m, seq!["lpush"@, k, v]).0, seq!["lpop"@, k]) == (
            m,
            Ok::<Option<Seq<u8>>, ErrorView>(Some(ub(v))),
        ),
{
    reveal_strlit("lcreate");
    reveal_strlit("lpush");
    reveal_strlit("lpop");
    reveal_strlit("rpush");
    reveal_strlit("rpop");
    let l = m[ub(k)]->List_0;
    assert((seq![ub(v)] + l).drop_first() =~= l);
    assert(m.insert(ub(k), ValueView::List(seq![ub(v)] + l)).insert(ub(k), ValueView::List(l))
        =~= m);
}

/// Reading a field of a hash right after setting it gives the value set,
/// and the field then exists; after removing it, it does not.
pub proof fn law_hset_then_hget(
    m: Map<Seq<u8>, ValueView>,
    k: Seq<char>,
    f: Seq<char>,
    v: Seq<char>,
)
    requires
        m.dom().contains(ub(k)),
        m[ub(k)] matches ValueView::Hash(h) && hash_wf(h),
    ensures
        hash_op(hash_op(m, seq!["hset"@, k, f, v]).0, seq!["hget"@, k, f]).1 == Ok::<
            Option<Seq<u8>>,
            ErrorView,
        >(Some(ub(v))),
        hash_op(hash_op(m, seq!["hset"@, k, f, v]).0, seq!["hexists"@, k, f]).1 == Ok::<
            Option<Seq<u8>>,
            ErrorView,
        >(Some(flag(true))),
        hash_op(hash_op(m, seq!["hdel"@, k, f]).0, seq!["hexists"@, k, f]).1 == Ok::<
            Option<Seq<u8>>,
            ErrorView,
        >(Some(flag(false))),
{
    reveal_strlit("hcreate");
    reveal_strlit("hset");
    reveal_strlit("hget");
    reveal_strlit("hexists");
    reveal_strlit("hdel");
    assert("hget"@[1] != "hset"@[1]);
    assert("hdel"@[1] != "hset"@[1]);
    assert("hdel"@[1] != "hget"@[1]);
    assert("hexists"@[1] != "hcreate"@[1]);
    let h = m[ub(k)]->Hash_0;
    lemma_hash_put(h, ub(f), ub(v), ub(f));
    lemma_hash_without(h, ub(f), ub(f));
    let h2 = hash_without(h, ub(f));
    assert(!hash_keys(h2).contains(ub(f))) by {
        if hash_keys(h2).contains(ub(f)) {
            assert(hash_lookup(h2, ub(f)) is Some);
        }
    }
    let h1 = hash_put(h, ub(f), ub(v));
    assert(hash_keys(h1).contains(ub(f))) by {
        assert(hash_lookup(h1, ub(f)) is Some);
    }
}

/// A value is a member of a set right after it is added, and not right
/// after it is removed.
pub proof fn law_sadd_then_scontains(m: Map<Seq<u8>, ValueView>, k: Seq<char>, v: Seq<char>)
    requires
        m.dom().contains(ub(k)),
        m[ub(k)] matches ValueView::Members(s) && s.no_duplicates(),
    ensures
        set_op(set_op(m, seq!["sadd"@, k, v]).0, seq!["scontains"@, k, v]).1 == Ok::<
            Option<Seq<u8>>,
            ErrorView,
        >(Some(flag(true))),
        set_op(set_op(m, seq!["srem"@, k, v]).0, seq!["scontains"@, k, v]).1 == Ok::<
            Option<Seq<u8>>,
            ErrorView,
        >(Some(flag(false))),
{
    reveal_strlit("screate");
    reveal_strlit("sadd");
    reveal_strlit("srem");
    reveal_strlit("scontains");
    assert("srem"@[1] != "sadd"@[1]);
    let s = m[ub(k)]->Members_0;
    assert(set_add(s, ub(v)).contains(ub(v))) by {
        if !s.contains(ub(v)) {
            assert(s.push(ub(v))[s.len() as int] == ub(v));
        }
    }
    lemma_set_remove(s, ub(v));
    assert(!set_remove(s, ub(v)).contains(ub(v))) by {
        if set_remove(s, ub(v)).contains(ub(v)) {
            let j = set_remove(s, ub(v)).index_of(ub(v));
            assert(set_remove(s, ub(v)).to_set().contains(ub(v)));
        }
    }
}

/// A client that subscribes to a channel is among its subscribers, and is
/// not once it unsubscribes; a client that was not subscribed to a channel
/// and subscribes and unsubscribes again leaves the channels as they were,
/// whether or not the channel had other subscribers.
pub proof fn law_subscribe_unsubscribe(m: Map<Seq<u8>, Seq<u64>>, ch: Seq<u8>, c: u64)
    requires
        channels_wf(m),
    ensures
        subscribers_of(channels_subscribe(m, ch, c), ch).contains(c),
        !subscribers_of(channels_unsubscribe(m, ch, c), ch).contains(c),
        !subscribers_of(m, ch).contains(c) ==> channels_unsubscribe(
            channels_subscribe(m, ch, c),
            ch,
            c,
        ) == m,
{
    let s = subscribers_of(m, ch);
    assert(with_subscriber(s, c).contains(c)) by {
        if !s.contains(c) {
            assert(s.push(c)[s.len() as int] == c);
        }
    }
    if m.dom().contains(ch) && m[ch].contains(c) {
        let i = m[ch].index_of(c);
        let r = m[ch].remove(i);
        assert(!r.contains(c)) by {
            if r.contains(c) {
                let j = r.index_of(c);
                let j1 = if j < i {
                    j
                } else {
                    j + 1
                };
                assert(m[ch][j1] == c);
            }
        }
    }
    if !s.contains(c) {
        let t = s.push(c);
        assert(t.contains(c)) by {
            assert(t[s.len() as int] == c);
        }
        let k = t.index_of(c);
        assert(k == s.len()) by {
            assert(t[k] == c);
            if k < s.len() {
                assert(s[k] == c);
            }
        }
        assert(t.remove(k) =~= s);
        if m.dom().contains(ch) {
            assert(m[ch].len() > 0);
            assert(channels_unsubscribe(channels_subscribe(m, ch, c), ch, c) =~= m);
        } else {
            assert(channels_unsubscribe(channels_subscribe(m, ch, c), ch, c) =~= m);
        }
    }
}

/// The same at the level of commands: `subscribe` then `unsubscribe` of
/// one channel by a client that was not subscribed to it both answer with
/// nothing, send nothing and leave the channels as they were. The names
/// are the commands' first words in lower case, so any case works.
pub proof fn law_pubsub_subscribe_unsubscribe(
    m: Map<Seq<u8>, Seq<u64>>,
    clients: Seq<u64>,
    w1: Seq<Seq<char>>,
    w2: Seq<Seq<char>>,
    c: u64,
)
    requires
        channels_wf(m),
        w1.len() >= 2,
        w2.len() >= 2,
        w1[1] == w2[1],
        !subscribers_of(m, encode_utf8(w1[1])).contains(c),
    ensures
        ({
            let first = pubsub_op(m, clients, "subscribe"@, w1, c);
            let second = pubsub_op(first.0, clients, "unsubscribe"@, w2, c);
            &&& first.1 == Ok::<Option<Seq<u8>>, ErrorView>(None)
            &&& first.2 == Seq::<(u64, Seq<u8>)>::empty()
            &&& second == (
                m,
                Ok::<Option<Seq<u8>>, ErrorView>(None),
                Seq::<(u64, Seq<u8>)>::empty(),
            )
        }),
{
    reveal_strlit("subscribe");
    reveal_strlit("unsubscribe");
    reveal_strlit("publish");
    assert("unsubscribe"@ != "subscribe"@) by {
        assert("unsubscribe"@.len() != "subscribe"@.len());
    }
    assert("unsubscribe"@ != "publish"@) by {
        assert("unsubscribe"@.len() != "publish"@.len());
    }
    law_subscribe_unsubscribe(m, encode_utf8(w1[1]), c);
}

/// A message published on a channel reaches its subscribers while they
/// are connected: all of them when all are.
pub proof fn law_publish_reaches_connected(subs: Seq<u64>, clients: Seq<u64>)
    requires
        forall|i: int| 0 <= i < subs.len() ==> clients.contains(#[trigger] subs[i]),
    ensures
        reached(subs, clients) == subs,
    decreases subs.len(),
{
    if subs.len() > 0 {
        assert(clients.contains(subs[0]));
        assert forall|i: int| 0 <= i < subs.drop_first().len() implies clients.contains(
            #[trigger] subs.drop_first()[i],
        ) by {
            assert(subs.drop_first()[i] == subs[i + 1]);
        }
        law_publish_reaches_connected(subs.drop_first(), clients);
        assert(seq![subs[0]] + subs.drop_first() =~= subs);
    }
}

/// The client reads back from an answer exactly what the server framed: the
/// payload, nothing where none is expected, or the error's text.
pub proof fn law_answer_roundtrip(t: Seq<char>, r: Result<Option<Seq<u8>>, ErrorView>)
    requires
        r matches Ok(Some(x)) ==> x.len() <= u64::MAX,
        r matches Err(e) ==> error_text(e) matches Some(m) && encode_utf8(m).len() <= u64::MAX,
    ensures
        r matches Ok(Some(x)) ==> read_answer(answer_frame(t, r)->Some_0, true) == AnswerView::Value(x),
        r is Ok && answer_frame(t, r) is Some ==> read_answer(answer_frame(t, r)->Some_0, false)
            == AnswerView::Value(seq![]),
        r matches Err(e) ==> (forall|b: bool| read_answer(answer_frame(t, r)->Some_0, b)
            == AnswerView::Failure(error_text(e)->Some_0)),
{
    match r {
        Ok(Some(x)) => {
            let f = seq![1u8] + u64_be(x.len() as u64) + x;
            lemma_be_roundtrip(x.len() as u64);
            assert(f.subrange(1, 9) =~= u64_be(x.len() as u64));
            assert(f.subrange(9, 9 + x.len() as int) =~= x);
        },
        Ok(None) => {},
        Err(e) => {
            let m = error_text(e)->Some_0;
            let b = encode_utf8(m);
            let f = seq![0u8] + u64_be(b.len() as u64) + b;
            lemma_be_roundtrip(b.len() as u64);
            assert(f.subrange(1, 9) =~= u64_be(b.len() as u64));
            assert(f.subrange(9, 9 + b.len() as int) =~= b);
        },
    }
}

proof fn lemma_split_line(a: Seq<char>, rest: Seq<char>, cur: Seq<char>)
    requires
        !a.contains('\n'),
    ensures
        split_nl(a + seq!['\n'] + rest, cur) == seq![strip_cr(cur + a)] + split_nl(rest, seq![]),
    decreases a.len(),
{
    if a.len() == 0 {
        assert(a + seq!['\n'] + rest =~= seq!['\n'] + rest);
        assert((seq!['\n'] + rest).drop_first() =~= rest);
        assert(cur + a =~= cur);
    } else {
        let s = a + seq!['\n'] + rest;
        assert(s[0] == a[0]);
        assert(a[0] != '\n') by {
            if a[0] == '\n' {
                assert(a.contains('\n'));
            }
        }
        assert(s.drop_first() =~= a.drop_first() + seq!['\n'] + rest);
        assert(!a.drop_first().contains('\n')) by {
            if a.drop_first().contains('\n') {
                let j = a.drop_first().index_of('\n');
                assert(a[j + 1] == '\n');
            }
        }
        lemma_split_line(a.drop_first(), rest, cur.push(a[0]));
        assert(cur.push(a[0]) + a.drop_first() =~= cur + a);
    }
}

proof fn lemma_queue_text_first(q: Seq<Seq<char>>)
    requires
        q.len() >= 1,
    ensures
        queue_text(q) == q[0] + seq!['\n'] + queue_text(q.drop_first()),
    decreases q.len(),
{
    reveal_strlit("\n");
    if q.len() == 1 {
        assert(q.drop_last() =~= Seq::<Seq<char>>::empty());
        assert(q.drop_first() =~= Seq::<Seq<char>>::empty());
        assert(queue_text(Seq::<Seq<char>>::empty()) == Seq::<char>::empty());
        assert("\n"@ =~= seq!['\n']);
        assert(queue_text(q) == queue_text(q.drop_last()) + q.last() + "\n"@);
        assert(queue_text(q) =~= q[0] + seq!['\n']);
        assert(q[0] + seq!['\n'] + Seq::<char>::empty() =~= q[0] + seq!['\n']);
    } else {
        lemma_queue_text_first(q.drop_last());
        assert(q.drop_last()[0] == q[0]);
        assert(q.drop_last().drop_first() =~= q.drop_first().drop_last());
        assert(q.drop_first().last() == q.last());
        assert(queue_text(q.drop_first()) == queue_text(q.drop_first().drop_last()) + q.drop_first().last() + "\n"@);
        assert(queue_text(q) =~= q[0] + seq!['\n'] + queue_text(q.drop_first()));
    }
}

/// The server splits the text of a queued transaction back into exactly
/// the commands that the client queued, where none of them holds a
/// newline or ends with a carriage return.
pub proof fn law_transaction_queue_roundtrip(q: Seq<Seq<char>>)
    requires
        forall|i: int| 0 <= i < q.len() ==> !(#[trigger] q[i]).contains('\n'),
        forall|i: int| 0 <= i < q.len() ==> !(q[i].len() > 0 && (#[trigger] q[i]).last() == '\r'),
    ensures
        lines(queue_text(q)) == q,
    decreases q.len(),
{
    if q.len() == 0 {
        assert(lines(Seq::<char>::empty()) =~= Seq::<Seq<char>>::empty());
    } else {
        lemma_queue_text_first(q);
        let rest = q.drop_first();
        assert forall|i: int| 0 <= i < rest.len() implies !(#[trigger] rest[i]).contains('\n') by {
            assert(rest[i] == q[i + 1]);
        }
        assert forall|i: int| 0 <= i < rest.len() implies !(rest[i].len() > 0 && (
        #[trigger] rest[i]).last() == '\r') by {
            assert(rest[i] == q[i + 1]);
        }
        law_transaction_queue_roundtrip(rest);
        assert(q[0].contains('\n') == false);
        lemma_split_line(q[0], queue_text(rest), seq![]);
        assert(Seq::<char>::empty() + q[0] =~= q[0]);
        assert(strip_cr(q[0]) == q[0]);
        assert(lines(queue_text(q)) =~= seq![q[0]] + rest);
        assert(seq![q[0]] + rest =~= q);
    }
}

/// Replaying the line that a `set` writes to the command log changes the
/// key space as the `set` did.
pub proof fn law_logged_set_replays(m: Map<Seq<u8>, ValueView>, k: Seq<char>, v: Seq<char>)
    requires
        is_word(k),
        is_word(v),
    ensures
        string_op(m, seq!["set"@, k, v]).2.len() == 1,
        replay_step(m, words(string_op(m, seq!["set"@, k, v]).2[0])) == Some(
            string_op(m, seq!["set"@, k, v]).0,
        ),
{
    reveal_strlit("set");
    reveal_strlit("set ");
    reveal_strlit(" ");
    let ws = seq!["set"@, k, v];
    assert(is_word("set"@)) by {
        assert forall|i: int| 0 <= i < "set"@.len() implies !crate::text::is_ws(
            #[trigger] "set"@[i],
        ) by {}
    }
    assert forall|i: int| 0 <= i < ws.len() implies is_word(#[trigger] ws[i]) by {}
    lemma_words_of_join(ws);
    assert(ws.drop_last() =~= seq!["set"@, k]);
    assert(seq!["set"@, k].drop_last() =~= seq!["set"@]);
    assert(join_words(seq!["set"@]) == "set"@);
    assert(seq!["set"@, k].last() == k);
    assert(ws.last() == v);
    assert(join_words(seq!["set"@, k]) == join_words(seq!["set"@]) + " "@ + k);
    assert(join_words(ws) == join_words(seq!["set"@, k]) + " "@ + v);
    assert("set "@ =~= "set"@ + " "@);
    assert(join_words(ws) =~= "set "@ + k + " "@ + v);
}

/// The session and the actions after the lines `ls` are typed at the
/// prompt one after another.
pub open spec fn typed(s: SessionView, ls: Seq<Seq<char>>) -> (SessionView, Seq<ActionView>)
    decreases ls.len(),
{
    if ls.len() == 0 {
        (s, seq![])
    } else {
        let before = typed(s, ls.drop_last());
        let step = cli_step_spec(before.0, ls.last());
        (step.0, before.1.push(step.1))
    }
}

/// Whether `line` is the single word `name`, in any case.
pub open spec fn is_named_line(line: Seq<char>, name: Seq<char>) -> bool {
    words(line).len() == 1 && lowercase(words(line)[0]) == name
}

/// Whether `line` is a well-formed key-space command: a known name, in any
/// case, with as many words as it takes and, where it takes an index, a
/// number in its place.
pub open spec fn queueable(line: Seq<char>) -> bool {
    let parts = words(line);
    &&& parts.len() > 0
    &&& cmd_info(lowercase(parts[0])) matches Some(info)
    &&& parts.len() == info.arity
    &&& (info.index ==> parse_usize(parts[2]) is Some)
}

/// What a transaction queues for the key-space command `line`: its type,
/// its name in lower case and its arguments, separated by single spaces.
pub open spec fn queued_entry(line: Seq<char>) -> Seq<char> {
    let parts = words(line);
    let name = lowercase(parts[0]);
    cmd_info(name)->Some_0.kind + " "@ + name + " "@ + join_words(parts.skip(1))
}

proof fn lemma_step_multi(s: SessionView, line: Seq<char>)
    requires
        !s.transaction_mode,
        is_named_line(line, "multi"@),
    ensures
        cli_step_spec(s, line) == (
            SessionView { transaction_mode: true, transaction_queue: seq![], ..s },
            ActionView::Print("OK"@),
        ),
{
    reveal_strlit("multi");
    reveal_strlit("subscribe");
    reveal_strlit("publish");
    reveal_strlit("unsubscribe");
    let parts = words(line);
    let name = lowercase(parts[0]);
    assert(name == "multi"@);
    assert(name != "subscribe"@);
    assert(name != "publish"@);
    assert(name != "unsubscribe"@);
    assert(cli_step_spec(s, line) == crate::client::cli_named(s, name, parts));
}

#[verifier::rlimit(50)]
proof fn lemma_step_queue(s: SessionView, line: Seq<char>)
    requires
        s.transaction_mode,
        queueable(line),
    ensures
        cli_step_spec(s, line) == (
            SessionView {
                transaction_queue: s.transaction_queue.push(queued_entry(line)),
                ..s
            },
            ActionView::Print("QUEUED"@),
        ),
{
    lemma_cmd_name_distinct(lowercase(words(line)[0]));
}

proof fn lemma_step_close(s: SessionView, line: Seq<char>)
    requires
        s.transaction_mode,
        is_named_line(line, "exec"@) || is_named_line(line, "discard"@),
    ensures
        cli_step_spec(s, line).0 == (SessionView {
            transaction_mode: false,
            transaction_queue: seq![],
            ..s
        }),
        is_named_line(line, "exec"@) ==> cli_step_spec(s, line).1 == ActionView::Send(
            transaction_frame(s.transaction_queue),
            ReplyKind::Exec,
        ),
        is_named_line(line, "discard"@) ==> cli_step_spec(s, line).1 == ActionView::Print("OK"@),
{
    reveal_strlit("multi");
    reveal_strlit("exec");
    reveal_strlit("discard");
    reveal_strlit("subscribe");
    reveal_strlit("publish");
    reveal_strlit("unsubscribe");
    let parts = words(line);
    let name = lowercase(parts[0]);
    assert(cli_step_spec(s, line) == crate::client::cli_named(s, name, parts));
    assert("exec"@.len() == 4 && "discard"@.len() == 7 && "multi"@.len() == 5);
    assert("subscribe"@.len() == 9 && "publish"@.len() == 7 && "unsubscribe"@.len() == 11);
    if name == "exec"@ {
        assert(name != "subscribe"@);
        assert(name != "publish"@);
        assert(name != "unsubscribe"@);
        assert(name != "multi"@);
    } else {
        assert(name == "discard"@);
        assert(name != "subscribe"@);
        assert(name != "publish"@) by {
            assert(name[0] != "publish"@[0]);
        }
        assert(name != "unsubscribe"@);
        assert(name != "multi"@);
        assert(name != "exec"@);
    }
}

proof fn lemma_typed_queue(s: SessionView, open: Seq<char>, cmds: Seq<Seq<char>>, k: int)
    requires
        !s.transaction_mode,
        is_named_line(open, "multi"@),
        forall|i: int| 0 <= i < cmds.len() ==> queueable(#[trigger] cmds[i]),
        0 <= k <= cmds.len(),
    ensures
        typed(s, seq![open] + cmds.take(k)) == (
            SessionView {
                transaction_mode: true,
                transaction_queue: cmds.take(k).map_values(|l: Seq<char>| queued_entry(l)),
                ..s
            },
            seq![ActionView::Print("OK"@)] + Seq::new(
                k as nat,
                |i: int| ActionView::Print("QUEUED"@),
            ),
        ),
    decreases k,
{
    let ls = seq![open] + cmds.take(k);
    if k == 0 {
        lemma_step_multi(s, open);
        assert(ls =~= seq![open]);
        assert(ls.drop_last() =~= Seq::<Seq<char>>::empty());
        assert(cmds.take(0).map_values(|l: Seq<char>| queued_entry(l))
            =~= Seq::<Seq<char>>::empty());
        assert(seq![ActionView::Print("OK"@)] + Seq::new(0, |i: int| ActionView::Print("QUEUED"@))
            =~= Seq::<ActionView>::empty().push(ActionView::Print("OK"@)));
        assert(typed(s, Seq::<Seq<char>>::empty()) == (s, Seq::<ActionView>::empty()));
        assert(typed(s, ls) == (cli_step_spec(s, open).0, Seq::<ActionView>::empty().push(cli_step_spec(s, open).1)));
    } else {
        lemma_typed_queue(s, open, cmds, k - 1);
        let prev = typed(s, seq![open] + cmds.take(k - 1));
        assert(ls.drop_last() =~= seq![open] + cmds.take(k - 1));
        assert(ls.last() == cmds[k - 1]);
        lemma_step_queue(prev.0, cmds[k - 1]);
        assert(typed(s, ls) == (cli_step_spec(prev.0, cmds[k - 1]).0, prev.1.push(cli_step_spec(prev.0, cmds[k - 1]).1)));
        assert(cmds.take(k).map_values(|l: Seq<char>| queued_entry(l)) =~= cmds.take(k - 1).map_values(
            |l: Seq<char>| queued_entry(l),
        ).push(queued_entry(cmds[k - 1])));
        assert(seq![ActionView::Print("OK"@)] + Seq::new(k as nat, |i: int| ActionView::Print("QUEUED"@))
            =~= (seq![ActionView::Print("OK"@)] + Seq::new(
            (k - 1) as nat,
            |i: int| ActionView::Print("QUEUED"@),
        )).push(ActionView::Print("QUEUED"@)));
    }
}

/// At the prompt, `MULTI` starts a transaction; each well-formed key-space
/// command typed after it is queued as its type, its name and its
/// arguments, and answered `QUEUED`, and nothing is sent; `EXEC` then
/// sends the queued commands as one transaction, in the order typed, and
/// `DISCARD` drops them. Either ends the transaction with an empty queue.
pub proof fn law_prompt_transaction(
    s: SessionView,
    open: Seq<char>,
    cmds: Seq<Seq<char>>,
    close: Seq<char>,
)
    requires
        !s.transaction_mode,
        is_named_line(open, "multi"@),
        forall|i: int| 0 <= i < cmds.len() ==> queueable(#[trigger] cmds[i]),
        is_named_line(close, "exec"@) || is_named_line(close, "discard"@),
    ensures
        ({
            let queue = cmds.map_values(|l: Seq<char>| queued_entry(l));
            let run = typed(s, seq![open] + cmds + seq![close]);
            &&& run.0 == SessionView { transaction_mode: false, transaction_queue: seq![], ..s }
            &&& run.1.len() == cmds.len() + 2
            &&& run.1[0] == ActionView::Print("OK"@)
            &&& forall|i: int| 1 <= i <= cmds.len() ==> run.1[i] == ActionView::Print("QUEUED"@)
            &&& is_named_line(close, "exec"@) ==> run.1.last() == ActionView::Send(
                transaction_frame(queue),
                ReplyKind::Exec,
            )
            &&& is_named_line(close, "discard"@) ==> run.1.last() == ActionView::Print("OK"@)
        }),
{
    lemma_typed_queue(s, open, cmds, cmds.len() as int);
    assert(cmds.take(cmds.len() as int) =~= cmds);
    let ls = seq![open] + cmds + seq![close];
    assert(ls.drop_last() =~= seq![open] + cmds);
    assert(ls.last() == close);
    let before = typed(s, seq![open] + cmds);
    lemma_step_close(before.0, close);
}

/// Replaying the log runs its lines one after another: the lines `a` and
/// then the lines `b` from the key space that `a` leaves.
pub proof fn law_replay_in_order(m: Map<Seq<u8>, ValueView>, a: Seq<Seq<char>>, b: Seq<Seq<char>>)
    ensures
        replay(m, a + b) == match replay(m, a) {
            Some(m1) => replay(m1, b),
            None => None,
        },
    decreases b.len(),
{
    if b.len() == 0 {
        assert(a + b =~= a);
    } else {
        law_replay_in_order(m, a, b.drop_last());
        assert((a + b).drop_last() =~= a + b.drop_last());
        assert((a + b).last() == b.last());
    }
}

proof fn lemma_replay_lcreate(m: Map<Seq<u8>, ValueView>, w: Seq<Seq<char>>)
    requires
        w.len() > 0,
        w[0] == "lcreate"@,
        list_op(m, w).1 is Ok,
    ensures
        replay_step(m, w) == Some(list_op(m, w).0),
{
    reveal_strlit("set");
    reveal_strlit("append");
    reveal_strlit("lcreate");
    reveal_strlit("hcreate");
    reveal_strlit("screate");
    reveal_strlit("lpush");
    reveal_strlit("rpush");
    reveal_strlit("hdel");
    reveal_strlit("sadd");
    reveal_strlit("srem");
    reveal_strlit("lpop");
    reveal_strlit("rpop");
    reveal_strlit("lclear");
    reveal_strlit("hclear");
    reveal_strlit("sclear");
    reveal_strlit("lset");
    reveal_strlit("hset");
    reveal_strlit("llen");
    reveal_strlit("lindex");
    assert(w[0].len() != "set"@.len() && w[0].len() != "append"@.len() && w[0][0] != "hcreate"@[0] && w[0][0] != "screate"@[0] && w[0].len() != "lpush"@.len() && w[0].len() != "rpush"@.len() && w[0].len() != "hdel"@.len() && w[0].len() != "sadd"@.len() && w[0].len() != "srem"@.len() && w[0].len() != "lpop"@.len() && w[0].len() != "rpop"@.len() && w[0].len() != "lclear"@.len() && w[0].len() != "hclear"@.len() && w[0].len() != "sclear"@.len() && w[0].len() != "lset"@.len() && w[0].len() != "hset"@.len() && w[0].len() != "llen"@.len() && w[0].len() != "lindex"@.len());
}

proof fn lemma_replay_lpush(m: Map<Seq<u8>, ValueView>, w: Seq<Seq<char>>)
    requires
        w.len() > 0,
        w[0] == "lpush"@,
        list_op(m, w).1 is Ok,
    ensures
        replay_step(m, w) == Some(list_op(m, w).0),
{
    reveal_strlit("set");
    reveal_strlit("append");
    reveal_strlit("lcreate");
    reveal_strlit("hcreate");
    reveal_strlit("screate");
    reveal_strlit("lpush");
    reveal_strlit("rpush");
    reveal_strlit("hdel");
    reveal_strlit("sadd");
    reveal_strlit("srem");
    reveal_strlit("lpop");
    reveal_strlit("rpop");
    reveal_strlit("lclear");
    reveal_strlit("hclear");
    reveal_strlit("sclear");
    reveal_strlit("lset");
    reveal_strlit("hset");
    reveal_strlit("llen");
    reveal_strlit("lindex");
    assert(w[0].len() != "set"@.len() && w[0].len() != "append"@.len() && w[0].len() != "lcreate"@.len() && w[0].len() != "hcreate"@.len() && w[0].len() != "screate"@.len() && w[0][0] != "rpush"@[0] && w[0].len() != "hdel"@.len() && w[0].len() != "sadd"@.len() && w[0].len() != "srem"@.len() && w[0].len() != "lpop"@.len() && w[0].len() != "rpop"@.len() && w[0].len() != "lclear"@.len() && w[0].len() != "hclear"@.len() && w[0].len() != "sclear"@.len() && w[0].len() != "lset"@.len() && w[0].len() != "hset"@.len() && w[0].len() != "llen"@.len() && w[0].len() != "lindex"@.len());
}

proof fn lemma_replay_rpush(m: Map<Seq<u8>, ValueView>, w: Seq<Seq<char>>)
    requires
        w.len() > 0,
        w[0] == "rpush"@,
        list_op(m, w).1 is Ok,
    ensures
        replay_step(m, w) == Some(list_op(m, w).0),
{
    reveal_strlit("set");
    reveal_strlit("append");
    reveal_strlit("lcreate");
    reveal_strlit("hcreate");
    reveal_strlit("screate");
    reveal_strlit("lpush");
    reveal_strlit("rpush");
    reveal_strlit("hdel");
    reveal_strlit("sadd");
    reveal_strlit("srem");
    reveal_strlit("lpop");
    reveal_strlit("rpop");
    reveal_strlit("lclear");
    reveal_strlit("hclear");
    reveal_strlit("sclear");
    reveal_strlit("lset");
    reveal_strlit("hset");
    reveal_strlit("llen");
    reveal_strlit("lindex");
    assert(w[0].len() != "set"@.len() && w[0].len() != "append"@.len() && w[0].len() != "lcreate"@.len() && w[0].len() != "hcreate"@.len() && w[0].len() != "screate"@.len() && w[0][0] != "lpush"@[0] && w[0].len() != "hdel"@.len() && w[0].len() != "sadd"@.len() && w[0].len() != "srem"@.len() && w[0].len() != "lpop"@.len() && w[0].len() != "rpop"@.len() && w[0].len() != "lclear"@.len() && w[0].len() != "hclear"@.len() && w[0].len() != "sclear"@.len() && w[0].len() != "lset"@.len() && w[0].len() != "hset"@.len() && w[0].len() != "llen"@.len() && w[0].len() != "lindex"@.len());
}

proof fn lemma_replay_lpop(m: Map<Seq<u8>, ValueView>, w: Seq<Seq<char>>)
    requires
        w.len() > 0,
        w[0] == "lpop"@,
        list_op(m, w).1 is Ok,
    ensures
        replay_step(m, w) == Some(list_op(m, w).0),
{
    reveal_strlit("set");
    reveal_strlit("append");
    reveal_strlit("lcreate");
    reveal_strlit("hcreate");
    reveal_strlit("screate");
    reveal_strlit("lpush");
    reveal_strlit("rpush");
    reveal_strlit("hdel");
    reveal_strlit("sadd");
    reveal_strlit("srem");
    reveal_strlit("lpop");
    reveal_strlit("rpop");
    reveal_strlit("lclear");
    reveal_strlit("hclear");
    reveal_strlit("sclear");
    reveal_strlit("lset");
    reveal_strlit("hset");
    reveal_strlit("llen");
    reveal_strlit("lindex");
    assert(w[0].len() != "set"@.len() && w[0].len() != "append"@.len() && w[0].len() != "lcreate"@.len() && w[0].len() != "hcreate"@.len() && w[0].len() != "screate"@.len() && w[0].len() != "lpush"@.len() && w[0].len() != "rpush"@.len() && w[0][0] != "hdel"@[0] && w[0][0] != "sadd"@[0] && w[0][0] != "srem"@[0] && w[0][0] != "rpop"@[0] && w[0].len() != "lclear"@.len() && w[0].len() != "hclear"@.len() && w[0].len() != "sclear"@.len() && w[0][1] != "lset"@[1] && w[0][0] != "hset"@[0] && w[0][1] != "llen"@[1] && w[0].len() != "lindex"@.len());
    if let ValueView::List(l) = m[ub(w[1])] {
        if l.len() == 0 {
            assert(m.insert(ub(w[1]), ValueView::List(l)) =~= m);
        }
    }
}

proof fn lemma_replay_rpop(m: Map<Seq<u8>, ValueView>, w: Seq<Seq<char>>)
    requires
        w.len() > 0,
        w[0] == "rpop"@,
        list_op(m, w).1 is Ok,
    ensures
        replay_step(m, w) == Some(list_op(m, w).0),
{
    reveal_strlit("set");
    reveal_strlit("append");
    reveal_strlit("lcreate");
    reveal_strlit("hcreate");
    reveal_strlit("screate");
    reveal_strlit("lpush");
    reveal_strlit("rpush");
    reveal_strlit("hdel");
    reveal_strlit("sadd");
    reveal_strlit("srem");
    reveal_strlit("lpop");
    reveal_strlit("rpop");
    reveal_strlit("lclear");
    reveal_strlit("hclear");
    reveal_strlit("sclear");
    reveal_strlit("lset");
    reveal_strlit("hset");
    reveal_strlit("llen");
    reveal_strlit("lindex");
    assert(w[0].len() != "set"@.len() && w[0].len() != "append"@.len() && w[0].len() != "lcreate"@.len() && w[0].len() != "hcreate"@.len() && w[0].len() != "screate"@.len() && w[0].len() != "lpush"@.len() && w[0].len() != "rpush"@.len() && w[0][0] != "hdel"@[0] && w[0][0] != "sadd"@[0] && w[0][0] != "srem"@[0] && w[0][0] != "lpop"@[0] && w[0].len() != "lclear"@.len() && w[0].len() != "hclear"@.len() && w[0].len() != "sclear"@.len() && w[0][0] != "lset"@[0] && w[0][0] != "hset"@[0] && w[0][0] != "llen"@[0] && w[0].len() != "lindex"@.len());
    if let ValueView::List(l) = m[ub(w[1])] {
        if l.len() == 0 {
            assert(m.insert(ub(w[1]), ValueView::List(l)) =~= m);
        }
    }
}

proof fn lemma_replay_lset(m: Map<Seq<u8>, ValueView>, w: Seq<Seq<char>>)
    requires
        w.len() > 0,
        w[0] == "lset"@,
        list_op(m, w).1 is Ok,
    ensures
        replay_step(m, w) == Some(list_op(m, w).0),
{
    reveal_strlit("set");
    reveal_strlit("append");
    reveal_strlit("lcreate");
    reveal_strlit("hcreate");
    reveal_strlit("screate");
    reveal_strlit("lpush");
    reveal_strlit("rpush");
    reveal_strlit("hdel");
    reveal_strlit("sadd");
    reveal_strlit("srem");
    reveal_strlit("lpop");
    reveal_strlit("rpop");
    reveal_strlit("lclear");
    reveal_strlit("hclear");
    reveal_strlit("sclear");
    reveal_strlit("lset");
    reveal_strlit("hset");
    reveal_strlit("llen");
    reveal_strlit("lindex");
    assert(w[0].len() != "set"@.len() && w[0].len() != "append"@.len() && w[0].len() != "lcreate"@.len() && w[0].len() != "hcreate"@.len() && w[0].len() != "screate"@.len() && w[0].len() != "lpush"@.len() && w[0].len() != "rpush"@.len() && w[0][0] != "hdel"@[0] && w[0][0] != "sadd"@[0] && w[0][0] != "srem"@[0] && w[0][1] != "lpop"@[1] && w[0][0] != "rpop"@[0] && w[0].len() != "lclear"@.len() && w[0].len() != "hclear"@.len() && w[0].len() != "sclear"@.len() && w[0][0] != "hset"@[0] && w[0][1] != "llen"@[1] && w[0].len() != "lindex"@.len());
}

proof fn lemma_replay_lclear(m: Map<Seq<u8>, ValueView>, w: Seq<Seq<char>>)
    requires
        w.len() > 0,
        w[0] == "lclear"@,
        list_op(m, w).1 is Ok,
    ensures
        replay_step(m, w) == Some(list_op(m, w).0),
{
    reveal_strlit("set");
    reveal_strlit("append");
    reveal_strlit("lcreate");
    reveal_strlit("hcreate");
    reveal_strlit("screate");
    reveal_strlit("lpush");
    reveal_strlit("rpush");
    reveal_strlit("hdel");
    reveal_strlit("sadd");
    reveal_strlit("srem");
    reveal_strlit("lpop");
    reveal_strlit("rpop");
    reveal_strlit("lclear");
    reveal_strlit("hclear");
    reveal_strlit("sclear");
    reveal_strlit("lset");
    reveal_strlit("hset");
    reveal_strlit("llen");
    reveal_strlit("lindex");
    assert(w[0].len() != "set"@.len() && w[0][0] != "append"@[0] && w[0].len() != "lcreate"@.len() && w[0].len() != "hcreate"@.len() && w[0].len() != "screate"@.len() && w[0].len() != "lpush"@.len() && w[0].len() != "rpush"@.len() && w[0].len() != "hdel"@.len() && w[0].len() != "sadd"@.len() && w[0].len() != "srem"@.len() && w[0].len() != "lpop"@.len() && w[0].len() != "rpop"@.len() && w[0][0] != "hclear"@[0] && w[0][0] != "sclear"@[0] && w[0].len() != "lset"@.len() && w[0].len() != "hset"@.len() && w[0].len() != "llen"@.len() && w[0][1] != "lindex"@[1]);
}

proof fn lemma_replay_hcreate(m: Map<Seq<u8>, ValueView>, w: Seq<Seq<char>>)
    requires
        w.len() > 0,
        w[0] == "hcreate"@,
        hash_op(m, w).1 is Ok,
    ensures
        replay_step(m, w) == Some(hash_op(m, w).0),
{
    reveal_strlit("set");
    reveal_strlit("append");
    reveal_strlit("lcreate");
    reveal_strlit("hcreate");
    reveal_strlit("screate");
    reveal_strlit("lpush");
    reveal_strlit("rpush");
    reveal_strlit("hdel");
    reveal_strlit("sadd");
    reveal_strlit("srem");
    reveal_strlit("lpop");
    reveal_strlit("rpop");
    reveal_strlit("lclear");
    reveal_strlit("hclear");
    reveal_strlit("sclear");
    reveal_strlit("lset");
    reveal_strlit("hset");
    reveal_strlit("hget");
    reveal_strlit("hexists");
    reveal_strlit("hlen");
    reveal_strlit("hkeys");
    reveal_strlit("hvalues");
    assert(w[0].len() != "set"@.len() && w[0].len() != "append"@.len() && w[0][0] != "lcreate"@[0] && w[0][0] != "screate"@[0] && w[0].len() != "lpush"@.len() && w[0].len() != "rpush"@.len() && w[0].len() != "hdel"@.len() && w[0].len() != "sadd"@.len() && w[0].len() != "srem"@.len() && w[0].len() != "lpop"@.len() && w[0].len() != "rpop"@.len() && w[0].len() != "lclear"@.len() && w[0].len() != "hclear"@.len() && w[0].len() != "sclear"@.len() && w[0].len() != "lset"@.len() && w[0].len() != "hset"@.len() && w[0].len() != "hget"@.len() && w[0][1] != "hexists"@[1] && w[0].len() != "hlen"@.len() && w[0].len() != "hkeys"@.len() && w[0][1] != "hvalues"@[1]);
}

proof fn lemma_replay_hset(m: Map<Seq<u8>, ValueView>, w: Seq<Seq<char>>)
    requires
        w.len() > 0,
        w[0] == "hset"@,
        hash_op(m, w).1 is Ok,
    ensures
        replay_step(m, w) == Some(hash_op(m, w).0),
{
    reveal_strlit("set");
    reveal_strlit("append");
    reveal_strlit("lcreate");
    reveal_strlit("hcreate");
    reveal_strlit("screate");
    reveal_strlit("lpush");
    reveal_strlit("rpush");
    reveal_strlit("hdel");
    reveal_strlit("sadd");
    reveal_strlit("srem");
    reveal_strlit("lpop");
    reveal_strlit("rpop");
    reveal_strlit("lclear");
    reveal_strlit("hclear");
    reveal_strlit("sclear");
    reveal_strlit("lset");
    reveal_strlit("hset");
    reveal_strlit("hget");
    reveal_strlit("hexists");
    reveal_strlit("hlen");
    reveal_strlit("hkeys");
    reveal_strlit("hvalues");
    assert(w[0].len() != "set"@.len() && w[0].len() != "append"@.len() && w[0].len() != "lcreate"@.len() && w[0].len() != "hcreate"@.len() && w[0].len() != "screate"@.len() && w[0].len() != "lpush"@.len() && w[0].len() != "rpush"@.len() && w[0][1] != "hdel"@[1] && w[0][0] != "sadd"@[0] && w[0][0] != "srem"@[0] && w[0][0] != "lpop"@[0] && w[0][0] != "rpop"@[0] && w[0].len() != "lclear"@.len() && w[0].len() != "hclear"@.len() && w[0].len() != "sclear"@.len() && w[0][0] != "lset"@[0] && w[0][1] != "hget"@[1] && w[0].len() != "hexists"@.len() && w[0][1] != "hlen"@[1] && w[0].len() != "hkeys"@.len() && w[0].len() != "hvalues"@.len());
}

proof fn lemma_replay_hdel(m: Map<Seq<u8>, ValueView>, w: Seq<Seq<char>>)
    requires
        w.len() > 0,
        w[0] == "hdel"@,
        hash_op(m, w).1 is Ok,
    ensures
        replay_step(m, w) == Some(hash_op(m, w).0),
{
    reveal_strlit("set");
    reveal_strlit("append");
    reveal_strlit("lcreate");
    reveal_strlit("hcreate");
    reveal_strlit("screate");
    reveal_strlit("lpush");
    reveal_strlit("rpush");
    reveal_strlit("hdel");
    reveal_strlit("sadd");
    reveal_strlit("srem");
    reveal_strlit("lpop");
    reveal_strlit("rpop");
    reveal_strlit("lclear");
    reveal_strlit("hclear");
    reveal_strlit("sclear");
    reveal_strlit("lset");
    reveal_strlit("hset");
    reveal_strlit("hget");
    reveal_strlit("hexists");
    reveal_strlit("hlen");
    reveal_strlit("hkeys");
    reveal_strlit("hvalues");
    assert(w[0].len() != "set"@.len() && w[0].len() != "append"@.len() && w[0].len() != "lcreate"@.len() && w[0].len() != "hcreate"@.len() && w[0].len() != "screate"@.len() && w[0].len() != "lpush"@.len() && w[0].len() != "rpush"@.len() && w[0][0] != "sadd"@[0] && w[0][0] != "srem"@[0] && w[0][0] != "lpop"@[0] && w[0][0] != "rpop"@[0] && w[0].len() != "lclear"@.len() && w[0].len() != "hclear"@.len() && w[0].len() != "sclear"@.len() && w[0][0] != "lset"@[0] && w[0][1] != "hset"@[1] && w[0][1] != "hget"@[1] && w[0].len() != "hexists"@.len() && w[0][1] != "hlen"@[1] && w[0].len() != "hkeys"@.len() && w[0].len() != "hvalues"@.len());
}

proof fn lemma_replay_hclear(m: Map<Seq<u8>, ValueView>, w: Seq<Seq<char>>)
    requires
        w.len() > 0,
        w[0] == "hclear"@,
        hash_op(m, w).1 is Ok,
    ensures
        replay_step(m, w) == Some(hash_op(m, w).0),
{
    reveal_strlit("set");
    reveal_strlit("append");
    reveal_strlit("lcreate");
    reveal_strlit("hcreate");
    reveal_strlit("screate");
    reveal_strlit("lpush");
    reveal_strlit("rpush");
    reveal_strlit("hdel");
    reveal_strlit("sadd");
    reveal_strlit("srem");
    reveal_strlit("lpop");
    reveal_strlit("rpop");
    reveal_strlit("lclear");
    reveal_strlit("hclear");
    reveal_strlit("sclear");
    reveal_strlit("lset");
    reveal_strlit("hset");
    reveal_strlit("hget");
    reveal_strlit("hexists");
    reveal_strlit("hlen");
    reveal_strlit("hkeys");
    reveal_strlit("hvalues");
    assert(w[0].len() != "set"@.len() && w[0][0] != "append"@[0] && w[0].len() != "lcreate"@.len() && w[0].len() != "hcreate"@.len() && w[0].len() != "screate"@.len() && w[0].len() != "lpush"@.len() && w[0].len() != "rpush"@.len() && w[0].len() != "hdel"@.len() && w[0].len() != "sadd"@.len() && w[0].len() != "srem"@.len() && w[0].len() != "lpop"@.len() && w[0].len() != "rpop"@.len() && w[0][0] != "lclear"@[0] && w[0][0] != "sclear"@[0] && w[0].len() != "lset"@.len() && w[0].len() != "hset"@.len() && w[0].len() != "hget"@.len() && w[0].len() != "hexists"@.len() && w[0].len() != "hlen"@.len() && w[0].len() != "hkeys"@.len() && w[0].len() != "hvalues"@.len());
}

proof fn lemma_replay_screate(m: Map<Seq<u8>, ValueView>, w: Seq<Seq<char>>)
    requires
        w.len() > 0,
        w[0] == "screate"@,
        set_op(m, w).1 is Ok,
    ensures
        replay_step(m, w) == Some(set_op(m, w).0),
{
    reveal_strlit("set");
    reveal_strlit("append");
    reveal_strlit("lcreate");
    reveal_strlit("hcreate");
    reveal_strlit("screate");
    reveal_strlit("lpush");
    reveal_strlit("rpush");
    reveal_strlit("hdel");
    reveal_strlit("sadd");
    reveal_strlit("srem");
    reveal_strlit("lpop");
    reveal_strlit("rpop");
    reveal_strlit("lclear");
    reveal_strlit("hclear");
    reveal_strlit("sclear");
    reveal_strlit("lset");
    reveal_strlit("hset");
    reveal_strlit("scontains");
    reveal_strlit("slen");
    reveal_strlit("svalues");
    assert(w[0].len() != "set"@.len() && w[0].len() != "append"@.len() && w[0][0] != "lcreate"@[0] && w[0][0] != "hcreate"@[0] && w[0].len() != "lpush"@.len() && w[0].len() != "rpush"@.len() && w[0].len() != "hdel"@.len() && w[0].len() != "sadd"@.len() && w[0].len() != "srem"@.len() && w[0].len() != "lpop"@.len() && w[0].len() != "rpop"@.len() && w[0].len() != "lclear"@.len() && w[0].len() != "hclear"@.len() && w[0].len() != "sclear"@.len() && w[0].len() != "lset"@.len() && w[0].len() != "hset"@.len() && w[0].len() != "scontains"@.len() && w[0].len() != "slen"@.len() && w[0][1] != "svalues"@[1]);
}

proof fn lemma_replay_sadd(m: Map<Seq<u8>, ValueView>, w: Seq<Seq<char>>)
    requires
        w.len() > 0,
        w[0] == "sadd"@,
        set_op(m, w).1 is Ok,
    ensures
        replay_step(m, w) == Some(set_op(m, w).0),
{
    reveal_strlit("set");
    reveal_strlit("append");
    reveal_strlit("lcreate");
    reveal_strlit("hcreate");
    reveal_strlit("screate");
    reveal_strlit("lpush");
    reveal_strlit("rpush");
    reveal_strlit("hdel");
    reveal_strlit("sadd");
    reveal_strlit("srem");
    reveal_strlit("lpop");
    reveal_strlit("rpop");
    reveal_strlit("lclear");
    reveal_strlit("hclear");
    reveal_strlit("sclear");
    reveal_strlit("lset");
    reveal_strlit("hset");
    reveal_strlit("scontains");
    reveal_strlit("slen");
    reveal_strlit("svalues");
    assert(w[0].len() != "set"@.len() && w[0].len() != "append"@.len() && w[0].len() != "lcreate"@.len() && w[0].len() != "hcreate"@.len() && w[0].len() != "screate"@.len() && w[0].len() != "lpush"@.len() && w[0].len() != "rpush"@.len() && w[0][0] != "hdel"@[0] && w[0][1] != "srem"@[1] && w[0][0] != "lpop"@[0] && w[0][0] != "rpop"@[0] && w[0].len() != "lclear"@.len() && w[0].len() != "hclear"@.len() && w[0].len() != "sclear"@.len() && w[0][0] != "lset"@[0] && w[0][0] != "hset"@[0] && w[0].len() != "scontains"@.len() && w[0][1] != "slen"@[1] && w[0].len() != "svalues"@.len());
}

proof fn lemma_replay_srem(m: Map<Seq<u8>, ValueView>, w: Seq<Seq<char>>)
    requires
        w.len() > 0,
        w[0] == "srem"@,
        set_op(m, w).1 is Ok,
    ensures
        replay_step(m, w) == Some(set_op(m, w).0),
{
    reveal_strlit("set");
    reveal_strlit("append");
    reveal_strlit("lcreate");
    reveal_strlit("hcreate");
    reveal_strlit("screate");
    reveal_strlit("lpush");
    reveal_strlit("rpush");
    reveal_strlit("hdel");
    reveal_strlit("sadd");
    reveal_strlit("srem");
    reveal_strlit("lpop");
    reveal_strlit("rpop");
    reveal_strlit("lclear");
    reveal_strlit("hclear");
    reveal_strlit("sclear");
    reveal_strlit("lset");
    reveal_strlit("hset");
    reveal_strlit("scontains");
    reveal_strlit("slen");
    reveal_strlit("svalues");
    assert(w[0].len() != "set"@.len() && w[0].len() != "append"@.len() && w[0].len() != "lcreate"@.len() && w[0].len() != "hcreate"@.len() && w[0].len() != "screate"@.len() && w[0].len() != "lpush"@.len() && w[0].len() != "rpush"@.len() && w[0][0] != "hdel"@[0] && w[0][1] != "sadd"@[1] && w[0][0] != "lpop"@[0] && w[0][0] != "rpop"@[0] && w[0].len() != "lclear"@.len() && w[0].len() != "hclear"@.len() && w[0].len() != "sclear"@.len() && w[0][0] != "lset"@[0] && w[0][0] != "hset"@[0] && w[0].len() != "scontains"@.len() && w[0][1] != "slen"@[1] && w[0].len() != "svalues"@.len());
}

proof fn lemma_replay_sclear(m: Map<Seq<u8>, ValueView>, w: Seq<Seq<char>>)
    requires
        w.len() > 0,
        w[0] == "sclear"@,
        set_op(m, w).1 is Ok,
    ensures
        replay_step(m, w) == Some(set_op(m, w).0),
{
    reveal_strlit("set");
    reveal_strlit("append");
    reveal_strlit("lcreate");
    reveal_strlit("hcreate");
    reveal_strlit("screate");
    reveal_strlit("lpush");
    reveal_strlit("rpush");
    reveal_strlit("hdel");
    reveal_strlit("sadd");
    reveal_strlit("srem");
    reveal_strlit("lpop");
    reveal_strlit("rpop");
    reveal_strlit("lclear");
    reveal_strlit("hclear");
    reveal_strlit("sclear");
    reveal_strlit("lset");
    reveal_strlit("hset");
    reveal_strlit("scontains");
    reveal_strlit("slen");
    reveal_strlit("svalues");
    assert(w[0].len() != "set"@.len() && w[0][0] != "append"@[0] && w[0].len() != "lcreate"@.len() && w[0].len() != "hcreate"@.len() && w[0].len() != "screate"@.len() && w[0].len() != "lpush"@.len() && w[0].len() != "rpush"@.len() && w[0].len() != "hdel"@.len() && w[0].len() != "sadd"@.len() && w[0].len() != "srem"@.len() && w[0].len() != "lpop"@.len() && w[0].len() != "rpop"@.len() && w[0][0] != "lclear"@[0] && w[0][0] != "hclear"@[0] && w[0].len() != "lset"@.len() && w[0].len() != "hset"@.len() && w[0].len() != "scontains"@.len() && w[0].len() != "slen"@.len() && w[0].len() != "svalues"@.len());
}

/// Replaying a logged list command changes the key space as the command
/// did when it ran and succeeded.
pub proof fn law_replay_list_commands(m: Map<Seq<u8>, ValueView>, w: Seq<Seq<char>>)
    requires
        w.len() > 0,
        w[0] == "lcreate"@ || w[0] == "lpush"@ || w[0] == "rpush"@ || w[0] == "lpop"@ || w[0]
            == "rpop"@ || w[0] == "lset"@ || w[0] == "lclear"@,
        list_op(m, w).1 is Ok,
    ensures
        replay_step(m, w) == Some(list_op(m, w).0),
{
    if w[0] == "lcreate"@ {
        lemma_replay_lcreate(m, w);
    } else if w[0] == "lpush"@ {
        lemma_replay_lpush(m, w);
    } else if w[0] == "rpush"@ {
        lemma_replay_rpush(m, w);
    } else if w[0] == "lpop"@ {
        lemma_replay_lpop(m, w);
    } else if w[0] == "rpop"@ {
        lemma_replay_rpop(m, w);
    } else if w[0] == "lset"@ {
        lemma_replay_lset(m, w);
    } else {
        lemma_replay_lclear(m, w);
    }
}

/// Replaying a logged hash command changes the key space as the command
/// did when it ran and succeeded.
pub proof fn law_replay_hash_commands(m: Map<Seq<u8>, ValueView>, w: Seq<Seq<char>>)
    requires
        w.len() > 0,
        w[0] == "hcreate"@ || w[0] == "hset"@ || w[0] == "hdel"@ || w[0] == "hclear"@,
        hash_op(m, w).1 is Ok,
    ensures
        replay_step(m, w) == Some(hash_op(m, w).0),
{
    if w[0] == "hcreate"@ {
        lemma_replay_hcreate(m, w);
    } else if w[0] == "hset"@ {
        lemma_replay_hset(m, w);
    } else if w[0] == "hdel"@ {
        lemma_replay_hdel(m, w);
    } else {
        lemma_replay_hclear(m, w);
    }
}

/// Replaying a logged set command changes the key space as the command did
/// when it ran and succeeded.
pub proof fn law_replay_set_commands(m: Map<Seq<u8>, ValueView>, w: Seq<Seq<char>>)
    requires
        w.len() > 0,
        w[0] == "screate"@ || w[0] == "sadd"@ || w[0] == "srem"@ || w[0] == "sclear"@,
        set_op(m, w).1 is Ok,
    ensures
        replay_step(m, w) == Some(set_op(m, w).0),
{
    if w[0] == "screate"@ {
        lemma_replay_screate(m, w);
    } else if w[0] == "sadd"@ {
        lemma_replay_sadd(m, w);
    } else if w[0] == "srem"@ {
        lemma_replay_srem(m, w);
    } else {
        lemma_replay_sclear(m, w);
    }
}

/// Replaying a logged `set` stores the string as the command did.
pub proof fn law_replay_string_set(m: Map<Seq<u8>, ValueView>, w: Seq<Seq<char>>)
    requires
        w.len() > 0,
        w[0] == "set"@,
        string_op(m, w).1 is Ok,
    ensures
        replay_step(m, w) == Some(string_op(m, w).0),
{
    reveal_strlit("set");
}

} // verus!
