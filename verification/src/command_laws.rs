//! Laws on what single commands answer and on how the log is replayed:
//! each relates a command's answer to the values it reads, or one command
//! to another.

use vstd::prelude::*;
use vstd::utf8::*;
use crate::codec::u64_be;
use crate::commands::{frame_items, hash_op, list_op, set_op, string_op, ub};
use crate::error::ErrorView;
use crate::persistence::{replay, replay_step};
use crate::redis::{hash_keys, hash_put, hash_wf, ValueView};
use crate::text::{decimal, find_char, lead_ws, lemma_decimal_roundtrip, lemma_find_char, split_at_space, trail_ws, trim, words};
use crate::transactions::{answer_line, transaction_run, transaction_step};

verus! {

broadcast use encode_utf8_decode_utf8, encode_utf8_valid_utf8;

/// Appending to a string and reading it gives the old string followed by
/// the appended bytes.
pub proof fn law_append_then_get(m: Map<Seq<u8>, ValueView>, k: Seq<char>, s: Seq<u8>, x: Seq<char>)
    requires
        m.dom().contains(ub(k)),
        m[ub(k)] == ValueView::Str(s),
    ensures
        string_op(string_op(m, seq!["append"@, k, x]).0, seq!["get"@, k]).1 == Ok::<
            Option<Seq<u8>>,
            ErrorView,
        >(Some(s + ub(x))),
{
    reveal_strlit("set");
    reveal_strlit("get");
    reveal_strlit("append");
    assert("get"@[0] != "set"@[0]);
}

/// A string set, appended to and read answers the set bytes followed by
/// the appended ones.
pub proof fn law_set_append_get(m: Map<Seq<u8>, ValueView>, k: Seq<char>, v: Seq<char>, x: Seq<char>)
    ensures
        string_op(
            string_op(string_op(m, seq!["set"@, k, v]).0, seq!["append"@, k, x]).0,
            seq!["get"@, k],
        ).1 == Ok::<Option<Seq<u8>>, ErrorView>(Some(ub(v) + ub(x))),
{
    reveal_strlit("set");
    let m1 = string_op(m, seq!["set"@, k, v]).0;
    assert(m1 == m.insert(ub(k), ValueView::Str(ub(v))));
    law_append_then_get(m1, k, ub(v), x);
}

/// `lindex` answers the element of the list at the index written in
/// decimal.
pub proof fn law_lindex(m: Map<Seq<u8>, ValueView>, k: Seq<char>, l: Seq<Seq<u8>>, i: nat)
    requires
        m.dom().contains(ub(k)),
        m[ub(k)] == ValueView::List(l),
        i < l.len(),
        i <= usize::MAX,
    ensures
        list_op(m, seq!["lindex"@, k, decimal(i)]) == (
            m,
            Ok::<Option<Seq<u8>>, ErrorView>(Some(l[i as int])),
        ),
{
    reveal_strlit("lindex");
    reveal_strlit("lcreate");
    reveal_strlit("lpush");
    reveal_strlit("rpush");
    reveal_strlit("lpop");
    reveal_strlit("rpop");
    reveal_strlit("llen");
    lemma_decimal_roundtrip(i);
}

/// After `rpush` of a value onto a list, `lindex` at the old length answers
/// that value; after `lpush`, `lindex` at 0 does.
pub proof fn law_push_then_lindex(m: Map<Seq<u8>, ValueView>, k: Seq<char>, l: Seq<Seq<u8>>, v: Seq<char>)
    requires
        m.dom().contains(ub(k)),
        m[ub(k)] == ValueView::List(l),
        l.len() < usize::MAX,
    ensures
        list_op(list_op(m, seq!["rpush"@, k, v]).0, seq!["lindex"@, k, decimal(l.len())]).1
            == Ok::<Option<Seq<u8>>, ErrorView>(Some(ub(v))),
        list_op(list_op(m, seq!["lpush"@, k, v]).0, seq!["lindex"@, k, decimal(0)]).1
            == Ok::<Option<Seq<u8>>, ErrorView>(Some(ub(v))),
{
    reveal_strlit("lcreate");
    reveal_strlit("lpush");
    reveal_strlit("rpush");
    assert("rpush"@[0] != "lpush"@[0]);
    let m1 = list_op(m, seq!["rpush"@, k, v]).0;
    assert(m1 == m.insert(ub(k), ValueView::List(l.push(ub(v)))));
    law_lindex(m1, k, l.push(ub(v)), l.len());
    let m2 = list_op(m, seq!["lpush"@, k, v]).0;
    assert(m2 == m.insert(ub(k), ValueView::List(seq![ub(v)] + l)));
    law_lindex(m2, k, seq![ub(v)] + l, 0);
}

/// `hvalues` answers the values of the hash and `hkeys` its fields, in the
/// order of its entries, each framed by its length.
pub proof fn law_hvalues_hkeys(m: Map<Seq<u8>, ValueView>, k: Seq<char>, h: Seq<(Seq<u8>, Seq<u8>)>)
    requires
        m.dom().contains(ub(k)),
        m[ub(k)] == ValueView::Hash(h),
    ensures
        hash_op(m, seq!["hvalues"@, k]) == (
            m,
            Ok::<Option<Seq<u8>>, ErrorView>(
                Some(frame_items(h.map_values(|p: (Seq<u8>, Seq<u8>)| p.1))),
            ),
        ),
        hash_op(m, seq!["hkeys"@, k]) == (
            m,
            Ok::<Option<Seq<u8>>, ErrorView>(
                Some(frame_items(h.map_values(|p: (Seq<u8>, Seq<u8>)| p.0))),
            ),
        ),
{
    reveal_strlit("hcreate");
    reveal_strlit("hset");
    reveal_strlit("hget");
    reveal_strlit("hexists");
    reveal_strlit("hdel");
    reveal_strlit("hlen");
    reveal_strlit("hclear");
    reveal_strlit("hkeys");
    reveal_strlit("hvalues");
    assert("hvalues"@[1] != "hcreate"@[1]);
    assert("hvalues"@[1] != "hexists"@[1]);
}

/// Setting a new field of a hash adds its value, framed, at the end of what
/// `hvalues` answers, and the field at the end of what `hkeys` answers.
pub proof fn law_hset_new_field_then_hvalues(
    m: Map<Seq<u8>, ValueView>,
    k: Seq<char>,
    h: Seq<(Seq<u8>, Seq<u8>)>,
    f: Seq<char>,
    v: Seq<char>,
)
    requires
        m.dom().contains(ub(k)),
        m[ub(k)] == ValueView::Hash(h),
        hash_wf(h),
        !hash_keys(h).contains(ub(f)),
    ensures
        ({
            let m1 = hash_op(m, seq!["hset"@, k, f, v]).0;
            let before = hash_op(m, seq!["hvalues"@, k]).1->Ok_0->Some_0;
            let keys_before = hash_op(m, seq!["hkeys"@, k]).1->Ok_0->Some_0;
            &&& hash_op(m1, seq!["hvalues"@, k]).1 == Ok::<Option<Seq<u8>>, ErrorView>(
                Some(before + u64_be(ub(v).len() as u64) + ub(v)),
            )
            &&& hash_op(m1, seq!["hkeys"@, k]).1 == Ok::<Option<Seq<u8>>, ErrorView>(
                Some(keys_before + u64_be(ub(f).len() as u64) + ub(f)),
            )
        }),
{
    reveal_strlit("hcreate");
    reveal_strlit("hset");
    let h1 = h.push((ub(f), ub(v)));
    assert(hash_put(h, ub(f), ub(v)) == h1);
    let m1 = hash_op(m, seq!["hset"@, k, f, v]).0;
    assert(m1 == m.insert(ub(k), ValueView::Hash(h1)));
    law_hvalues_hkeys(m, k, h);
    law_hvalues_hkeys(m1, k, h1);
    let vs = h1.map_values(|p: (Seq<u8>, Seq<u8>)| p.1);
    let ks = h1.map_values(|p: (Seq<u8>, Seq<u8>)| p.0);
    assert(vs.drop_last() =~= h.map_values(|p: (Seq<u8>, Seq<u8>)| p.1));
    assert(ks.drop_last() =~= h.map_values(|p: (Seq<u8>, Seq<u8>)| p.0));
    assert(vs.last() == ub(v));
    assert(ks.last() == ub(f));
}

proof fn lemma_type_prefix(t: Seq<char>, c: Seq<char>)
    requires
        t.len() > 0,
        forall|j: int| 0 <= j < t.len() ==> #[trigger] t[j] != ' ' && !crate::text::is_ws(t[j]),
    ensures
        split_at_space(t + " "@ + c) == (t, c),
        trim(t) == t,
{
    reveal_strlit(" ");
    let line = t + " "@ + c;
    assert forall|j: int| 0 <= j < t.len() implies #[trigger] line[j] != ' ' by {
        assert(line[j] == t[j]);
    }
    assert(line[t.len() as int] == ' ');
    lemma_find_char(line, ' ', t.len() as int);
    assert(line.take(t.len() as int) =~= t);
    assert(line.skip(t.len() as int + 1) =~= c);
    assert(!crate::text::is_ws(t[0]));
    assert(!crate::text::is_ws(t.last()));
    assert(lead_ws(t) == 0);
    assert(t.skip(0) =~= t);
    assert(trail_ws(t) == 0);
    assert(t.take(t.len() as int) =~= t);
}

/// A line `type command` of a transaction does to the key space exactly
/// what the command of that type does, and answers what it answers.
pub proof fn law_transaction_line_is_command(m: Map<Seq<u8>, ValueView>, t: Seq<char>, c: Seq<char>)
    requires
        t == "string"@ || t == "list"@ || t == "hash"@ || t == "set"@,
    ensures
        ({
            let step = transaction_step(m, t + " "@ + c);
            let w = words(c);
            &&& t == "string"@ ==> step == string_op(m, w)
            &&& t == "list"@ ==> step == (list_op(m, w).0, list_op(m, w).1, Seq::<Seq<char>>::empty())
            &&& t == "hash"@ ==> step == (hash_op(m, w).0, hash_op(m, w).1, Seq::<Seq<char>>::empty())
            &&& t == "set"@ ==> step == (set_op(m, w).0, set_op(m, w).1, Seq::<Seq<char>>::empty())
        }),
{
    reveal_strlit("string");
    reveal_strlit("list");
    reveal_strlit("hash");
    reveal_strlit("set");
    assert("list"@[0] != "hash"@[0]);
    assert forall|j: int| 0 <= j < t.len() implies #[trigger] t[j] != ' ' && !crate::text::is_ws(t[j]) by {
    }
    lemma_type_prefix(t, c);
}

/// Replaying a log is replaying its lines one by one: nothing for no line,
/// and for one more line, the step of that line from where the others
/// left the key space.
pub proof fn law_replay_is_fold(m: Map<Seq<u8>, ValueView>, ls: Seq<Seq<char>>, l: Seq<char>)
    ensures
        replay(m, Seq::<Seq<char>>::empty()) == Some(m),
        replay(m, ls.push(l)) == match replay(m, ls) {
            Some(m1) => replay_step(m1, words(l)),
            None => None,
        },
{
    assert(ls.push(l).drop_last() =~= ls);
}

/// A create line replayed on any key space puts an empty value of its kind
/// under the key, in place of whatever was there.
pub proof fn law_replay_create(m: Map<Seq<u8>, ValueView>, k: Seq<char>, rest: Seq<Seq<char>>)
    ensures
        replay_step(m, seq!["lcreate"@, k] + rest) == Some(
            m.insert(ub(k), ValueView::List(seq![])),
        ),
        replay_step(m, seq!["hcreate"@, k] + rest) == Some(
            m.insert(ub(k), ValueView::Hash(seq![])),
        ),
        replay_step(m, seq!["screate"@, k] + rest) == Some(
            m.insert(ub(k), ValueView::Members(seq![])),
        ),
{
    reveal_strlit("set");
    reveal_strlit("append");
    reveal_strlit("lcreate");
    reveal_strlit("hcreate");
    reveal_strlit("screate");
    assert("lcreate"@[0] != "hcreate"@[0]);
    assert("lcreate"@[0] != "screate"@[0]);
    assert("hcreate"@[0] != "screate"@[0]);
    assert((seq!["lcreate"@, k] + rest)[1] == k);
    assert((seq!["hcreate"@, k] + rest)[1] == k);
    assert((seq!["screate"@, k] + rest)[1] == k);
    assert((seq!["screate"@, k] + rest)[0] == "screate"@);
    assert("screate"@.len() != "set"@.len() && "screate"@.len() != "append"@.len());
}

/// A log that creates a value, changes it and creates it again holds an
/// empty value of that kind under the key: a later create replaces it.
pub proof fn law_replay_create_replaces(m: Map<Seq<u8>, ValueView>, ls: Seq<Seq<char>>, l: Seq<char>, k: Seq<char>)
    requires
        words(l) == seq!["lcreate"@, k],
        replay(m, ls) is Some,
    ensures
        replay(m, ls.push(l)) == Some(replay(m, ls)->Some_0.insert(ub(k), ValueView::List(seq![]))),
{
    law_replay_is_fold(m, ls, l);
    law_replay_create(replay(m, ls)->Some_0, k, seq![]);
    assert(seq!["lcreate"@, k] + Seq::<Seq<char>>::empty() =~= seq!["lcreate"@, k]);
}

/// The names of the string commands differ from one another.
proof fn lemma_string_names()
    ensures
        "set"@ != "get"@,
        "set"@ != "append"@,
        "set"@ != "len"@,
        "get"@ != "append"@,
        "get"@ != "len"@,
        "append"@ != "len"@,
{
    reveal_strlit("set");
    reveal_strlit("get");
    reveal_strlit("append");
    reveal_strlit("len");
    assert("set"@[0] != "get"@[0]);
    assert("set"@.len() != "append"@.len());
    assert("set"@[0] != "len"@[0]);
    assert("get"@.len() != "append"@.len());
    assert("get"@[0] != "len"@[0]);
    assert("append"@.len() != "len"@.len());
}

/// The names of the list commands differ from one another.
proof fn lemma_list_names()
    ensures
        "lcreate"@ != "lpush"@,
        "lcreate"@ != "rpush"@,
        "lcreate"@ != "lpop"@,
        "lcreate"@ != "rpop"@,
        "lcreate"@ != "llen"@,
        "lcreate"@ != "lindex"@,
        "lcreate"@ != "lset"@,
        "lcreate"@ != "lclear"@,
        "lpush"@ != "rpush"@,
        "lpush"@ != "lpop"@,
        "lpush"@ != "rpop"@,
        "lpush"@ != "llen"@,
        "lpush"@ != "lindex"@,
        "lpush"@ != "lset"@,
        "lpush"@ != "lclear"@,
        "rpush"@ != "lpop"@,
        "rpush"@ != "rpop"@,
        "rpush"@ != "llen"@,
        "rpush"@ != "lindex"@,
        "rpush"@ != "lset"@,
        "rpush"@ != "lclear"@,
        "lpop"@ != "rpop"@,
        "lpop"@ != "llen"@,
        "lpop"@ != "lindex"@,
        "lpop"@ != "lset"@,
        "lpop"@ != "lclear"@,
        "rpop"@ != "llen"@,
        "rpop"@ != "lindex"@,
        "rpop"@ != "lset"@,
        "rpop"@ != "lclear"@,
        "llen"@ != "lindex"@,
        "llen"@ != "lset"@,
        "llen"@ != "lclear"@,
        "lindex"@ != "lset"@,
        "lindex"@ != "lclear"@,
        "lset"@ != "lclear"@,
{
    reveal_strlit("lcreate");
    reveal_strlit("lpush");
    reveal_strlit("rpush");
    reveal_strlit("lpop");
    reveal_strlit("rpop");
    reveal_strlit("llen");
    reveal_strlit("lindex");
    reveal_strlit("lset");
    reveal_strlit("lclear");
    assert("lcreate"@.len() != "lpush"@.len());
    assert("lcreate"@.len() != "rpush"@.len());
    assert("lcreate"@.len() != "lpop"@.len());
    assert("lcreate"@.len() != "rpop"@.len());
    assert("lcreate"@.len() != "llen"@.len());
    assert("lcreate"@.len() != "lindex"@.len());
    assert("lcreate"@.len() != "lset"@.len());
    assert("lcreate"@.len() != "lclear"@.len());
    assert("lpush"@[0] != "rpush"@[0]);
    assert("lpush"@.len() != "lpop"@.len());
    assert("lpush"@.len() != "rpop"@.len());
    assert("lpush"@.len() != "llen"@.len());
    assert("lpush"@.len() != "lindex"@.len());
    assert("lpush"@.len() != "lset"@.len());
    assert("lpush"@.len() != "lclear"@.len());
    assert("rpush"@.len() != "lpop"@.len());
    assert("rpush"@.len() != "rpop"@.len());
    assert("rpush"@.len() != "llen"@.len());
    assert("rpush"@.len() != "lindex"@.len());
    assert("rpush"@.len() != "lset"@.len());
    assert("rpush"@.len() != "lclear"@.len());
    assert("lpop"@[0] != "rpop"@[0]);
    assert("lpop"@[1] != "llen"@[1]);
    assert("lpop"@.len() != "lindex"@.len());
    assert("lpop"@[1] != "lset"@[1]);
    assert("lpop"@.len() != "lclear"@.len());
    assert("rpop"@[0] != "llen"@[0]);
    assert("rpop"@.len() != "lindex"@.len());
    assert("rpop"@[0] != "lset"@[0]);
    assert("rpop"@.len() != "lclear"@.len());
    assert("llen"@.len() != "lindex"@.len());
    assert("llen"@[1] != "lset"@[1]);
    assert("llen"@.len() != "lclear"@.len());
    assert("lindex"@.len() != "lset"@.len());
    assert("lindex"@[1] != "lclear"@[1]);
    assert("lset"@.len() != "lclear"@.len());
}

/// The names of the hash commands differ from one another.
proof fn lemma_hash_names()
    ensures
        "hcreate"@ != "hset"@,
        "hcreate"@ != "hget"@,
        "hcreate"@ != "hexists"@,
        "hcreate"@ != "hdel"@,
        "hcreate"@ != "hlen"@,
        "hcreate"@ != "hclear"@,
        "hcreate"@ != "hkeys"@,
        "hcreate"@ != "hvalues"@,
        "hset"@ != "hget"@,
        "hset"@ != "hexists"@,
        "hset"@ != "hdel"@,
        "hset"@ != "hlen"@,
        "hset"@ != "hclear"@,
        "hset"@ != "hkeys"@,
        "hset"@ != "hvalues"@,
        "hget"@ != "hexists"@,
        "hget"@ != "hdel"@,
        "hget"@ != "hlen"@,
        "hget"@ != "hclear"@,
        "hget"@ != "hkeys"@,
        "hget"@ != "hvalues"@,
        "hexists"@ != "hdel"@,
        "hexists"@ != "hlen"@,
        "hexists"@ != "hclear"@,
        "hexists"@ != "hkeys"@,
        "hexists"@ != "hvalues"@,
        "hdel"@ != "hlen"@,
        "hdel"@ != "hclear"@,
        "hdel"@ != "hkeys"@,
        "hdel"@ != "hvalues"@,
        "hlen"@ != "hclear"@,
        "hlen"@ != "hkeys"@,
        "hlen"@ != "hvalues"@,
        "hclear"@ != "hkeys"@,
        "hclear"@ != "hvalues"@,
        "hkeys"@ != "hvalues"@,
{
    reveal_strlit("hcreate");
    reveal_strlit("hset");
    reveal_strlit("hget");
    reveal_strlit("hexists");
    reveal_strlit("hdel");
    reveal_strlit("hlen");
    reveal_strlit("hclear");
    reveal_strlit("hkeys");
    reveal_strlit("hvalues");
    assert("hcreate"@.len() != "hset"@.len());
    assert("hcreate"@.len() != "hget"@.len());
    assert("hcreate"@[1] != "hexists"@[1]);
    assert("hcreate"@.len() != "hdel"@.len());
    assert("hcreate"@.len() != "hlen"@.len());
    assert("hcreate"@.len() != "hclear"@.len());
    assert("hcreate"@.len() != "hkeys"@.len());
    assert("hcreate"@[1] != "hvalues"@[1]);
    assert("hset"@[1] != "hget"@[1]);
    assert("hset"@.len() != "hexists"@.len());
    assert("hset"@[1] != "hdel"@[1]);
    assert("hset"@[1] != "hlen"@[1]);
    assert("hset"@.len() != "hclear"@.len());
    assert("hset"@.len() != "hkeys"@.len());
    assert("hset"@.len() != "hvalues"@.len());
    assert("hget"@.len() != "hexists"@.len());
    assert("hget"@[1] != "hdel"@[1]);
    assert("hget"@[1] != "hlen"@[1]);
    assert("hget"@.len() != "hclear"@.len());
    assert("hget"@.len() != "hkeys"@.len());
    assert("hget"@.len() != "hvalues"@.len());
    assert("hexists"@.len() != "hdel"@.len());
    assert("hexists"@.len() != "hlen"@.len());
    assert("hexists"@.len() != "hclear"@.len());
    assert("hexists"@.len() != "hkeys"@.len());
    assert("hexists"@[1] != "hvalues"@[1]);
    assert("hdel"@[1] != "hlen"@[1]);
    assert("hdel"@.len() != "hclear"@.len());
    assert("hdel"@.len() != "hkeys"@.len());
    assert("hdel"@.len() != "hvalues"@.len());
    assert("hlen"@.len() != "hclear"@.len());
    assert("hlen"@.len() != "hkeys"@.len());
    assert("hlen"@.len() != "hvalues"@.len());
    assert("hclear"@.len() != "hkeys"@.len());
    assert("hclear"@.len() != "hvalues"@.len());
    assert("hkeys"@.len() != "hvalues"@.len());
}

/// The names of the set commands differ from one another.
proof fn lemma_set_names()
    ensures
        "screate"@ != "sadd"@,
        "screate"@ != "srem"@,
        "screate"@ != "scontains"@,
        "screate"@ != "slen"@,
        "screate"@ != "sclear"@,
        "screate"@ != "svalues"@,
        "sadd"@ != "srem"@,
        "sadd"@ != "scontains"@,
        "sadd"@ != "slen"@,
        "sadd"@ != "sclear"@,
        "sadd"@ != "svalues"@,
        "srem"@ != "scontains"@,
        "srem"@ != "slen"@,
        "srem"@ != "sclear"@,
        "srem"@ != "svalues"@,
        "scontains"@ != "slen"@,
        "scontains"@ != "sclear"@,
        "scontains"@ != "svalues"@,
        "slen"@ != "sclear"@,
        "slen"@ != "svalues"@,
        "sclear"@ != "svalues"@,
{
    reveal_strlit("screate");
    reveal_strlit("sadd");
    reveal_strlit("srem");
    reveal_strlit("scontains");
    reveal_strlit("slen");
    reveal_strlit("sclear");
    reveal_strlit("svalues");
    assert("screate"@.len() != "sadd"@.len());
    assert("screate"@.len() != "srem"@.len());
    assert("screate"@.len() != "scontains"@.len());
    assert("screate"@.len() != "slen"@.len());
    assert("screate"@.len() != "sclear"@.len());
    assert("screate"@[1] != "svalues"@[1]);
    assert("sadd"@[1] != "srem"@[1]);
    assert("sadd"@.len() != "scontains"@.len());
    assert("sadd"@[1] != "slen"@[1]);
    assert("sadd"@.len() != "sclear"@.len());
    assert("sadd"@.len() != "svalues"@.len());
    assert("srem"@.len() != "scontains"@.len());
    assert("srem"@[1] != "slen"@[1]);
    assert("srem"@.len() != "sclear"@.len());
    assert("srem"@.len() != "svalues"@.len());
    assert("scontains"@.len() != "slen"@.len());
    assert("scontains"@.len() != "sclear"@.len());
    assert("scontains"@.len() != "svalues"@.len());
    assert("slen"@.len() != "sclear"@.len());
    assert("slen"@.len() != "svalues"@.len());
    assert("sclear"@.len() != "svalues"@.len());
}

/// A string is read back whole by `get`, and `len` answers its length in
/// eight big-endian bytes; neither changes the key space.
pub proof fn law_string_reads(m: Map<Seq<u8>, ValueView>, k: Seq<char>, s: Seq<u8>)
    requires
        m.dom().contains(ub(k)),
        m[ub(k)] == ValueView::Str(s),
    ensures
        string_op(m, seq!["get"@, k]) == (m, Ok::<Option<Seq<u8>>, ErrorView>(Some(s)), Seq::<Seq<char>>::empty()),
        string_op(m, seq!["len"@, k]) == (
            m,
            Ok::<Option<Seq<u8>>, ErrorView>(Some(u64_be(s.len() as u64))),
            Seq::<Seq<char>>::empty(),
        ),
{
    lemma_string_names();
}

/// A create command puts an empty value of its kind under the key, in
/// place of whatever was there.
pub proof fn law_create_commands(m: Map<Seq<u8>, ValueView>, k: Seq<char>)
    ensures
        list_op(m, seq!["lcreate"@, k]) == (
            m.insert(ub(k), ValueView::List(seq![])),
            Ok::<Option<Seq<u8>>, ErrorView>(None),
        ),
        hash_op(m, seq!["hcreate"@, k]) == (
            m.insert(ub(k), ValueView::Hash(seq![])),
            Ok::<Option<Seq<u8>>, ErrorView>(None),
        ),
        set_op(m, seq!["screate"@, k]) == (
            m.insert(ub(k), ValueView::Members(seq![])),
            Ok::<Option<Seq<u8>>, ErrorView>(None),
        ),
{
    reveal_strlit("lcreate");
    reveal_strlit("hcreate");
    reveal_strlit("screate");
}

/// On a list: `llen` answers its length; `lpop` answers the first element
/// and leaves the rest, `rpop` the last and leaves the rest, and on an
/// empty list both answer nothing and change nothing; `lclear` empties it.
pub proof fn law_list_reads_and_pops(m: Map<Seq<u8>, ValueView>, k: Seq<char>, l: Seq<Seq<u8>>)
    requires
        m.dom().contains(ub(k)),
        m[ub(k)] == ValueView::List(l),
    ensures
        list_op(m, seq!["llen"@, k]) == (m, Ok::<Option<Seq<u8>>, ErrorView>(Some(u64_be(l.len() as u64)))),
        l.len() > 0 ==> list_op(m, seq!["lpop"@, k]) == (
            m.insert(ub(k), ValueView::List(l.subrange(1, l.len() as int))),
            Ok::<Option<Seq<u8>>, ErrorView>(Some(l[0])),
        ),
        l.len() > 0 ==> list_op(m, seq!["rpop"@, k]) == (
            m.insert(ub(k), ValueView::List(l.subrange(0, l.len() - 1))),
            Ok::<Option<Seq<u8>>, ErrorView>(Some(l[l.len() - 1])),
        ),
        l.len() == 0 ==> list_op(m, seq!["lpop"@, k]) == (m, Ok::<Option<Seq<u8>>, ErrorView>(None)),
        l.len() == 0 ==> list_op(m, seq!["rpop"@, k]) == (m, Ok::<Option<Seq<u8>>, ErrorView>(None)),
        list_op(m, seq!["lclear"@, k]) == (
            m.insert(ub(k), ValueView::List(seq![])),
            Ok::<Option<Seq<u8>>, ErrorView>(None),
        ),
{
    lemma_list_names();
    assert(l.drop_first() =~= l.subrange(1, l.len() as int));
    assert(l.drop_last() =~= l.subrange(0, l.len() - 1));
}

/// After `lset` of a value at an index of a list, `lindex` there answers
/// that value and at every other index what was there.
pub proof fn law_lset_then_lindex(
    m: Map<Seq<u8>, ValueView>,
    k: Seq<char>,
    l: Seq<Seq<u8>>,
    i: nat,
    j: nat,
    v: Seq<char>,
)
    requires
        m.dom().contains(ub(k)),
        m[ub(k)] == ValueView::List(l),
        i < l.len(),
        j < l.len(),
        l.len() <= usize::MAX,
    ensures
        ({
            let m1 = list_op(m, seq!["lset"@, k, decimal(i), v]);
            &&& m1.1 == Ok::<Option<Seq<u8>>, ErrorView>(None)
            &&& list_op(m1.0, seq!["lindex"@, k, decimal(j)]).1 == Ok::<Option<Seq<u8>>, ErrorView>(
                Some(if j == i { ub(v) } else { l[j as int] }),
            )
        }),
{
    lemma_list_names();
    lemma_decimal_roundtrip(i);
    let l1 = l.update(i as int, ub(v));
    let m1 = list_op(m, seq!["lset"@, k, decimal(i), v]).0;
    assert(m1 == m.insert(ub(k), ValueView::List(l1)));
    law_lindex(m1, k, l1, j);
}

/// On a hash without repeated fields: `hget` of a field answers its value
/// and fails for a field it lacks; `hexists` answers 1 or 0 as the field is
/// there; `hlen` answers the number of fields; `hdel` takes the field out;
/// `hclear` empties the hash.
pub proof fn law_hash_reads(
    m: Map<Seq<u8>, ValueView>,
    k: Seq<char>,
    h: Seq<(Seq<u8>, Seq<u8>)>,
    f: Seq<char>,
    i: int,
)
    requires
        m.dom().contains(ub(k)),
        m[ub(k)] == ValueView::Hash(h),
        hash_wf(h),
    ensures
        0 <= i < h.len() && h[i].0 == ub(f) ==> hash_op(m, seq!["hget"@, k, f]) == (
            m,
            Ok::<Option<Seq<u8>>, ErrorView>(Some(h[i].1)),
        ),
        (forall|n: int| 0 <= n < h.len() ==> h[n].0 != ub(f)) ==> hash_op(m, seq!["hget"@, k, f]).1 is Err,
        hash_op(m, seq!["hexists"@, k, f]) == (
            m,
            Ok::<Option<Seq<u8>>, ErrorView>(
                Some(if exists|n: int| 0 <= n < h.len() && h[n].0 == ub(f) { seq![1u8] } else { seq![0u8] }),
            ),
        ),
        hash_op(m, seq!["hlen"@, k]) == (m, Ok::<Option<Seq<u8>>, ErrorView>(Some(u64_be(h.len() as u64)))),
        hash_op(hash_op(m, seq!["hdel"@, k, f]).0, seq!["hexists"@, k, f]).1 == Ok::<
            Option<Seq<u8>>,
            ErrorView,
        >(Some(seq![0u8])),
        hash_op(m, seq!["hclear"@, k]) == (
            m.insert(ub(k), ValueView::Hash(seq![])),
            Ok::<Option<Seq<u8>>, ErrorView>(None),
        ),
{
    lemma_hash_names();
    let ks = hash_keys(h);
    assert forall|n: int| 0 <= n < h.len() implies ks[n] == #[trigger] h[n].0 by {}
    if exists|n: int| 0 <= n < h.len() && h[n].0 == ub(f) {
        let n = choose|n: int| 0 <= n < h.len() && h[n].0 == ub(f);
        assert(ks[n] == ub(f));
        assert(ks.contains(ub(f)));
    }
    if ks.contains(ub(f)) {
        let n = ks.index_of(ub(f));
        assert(h[n].0 == ub(f));
    }
    if 0 <= i < h.len() && h[i].0 == ub(f) {
        assert(ks[i] == ub(f));
        let n = ks.index_of(ub(f));
        assert(ks[n] == ub(f));
        assert(n == i);
    }
    crate::redis::lemma_hash_without(h, ub(f), ub(f));
}

/// On a set: `scontains` answers 1 or 0 as the value is a member; `slen`
/// answers the number of members; `svalues` answers the number of members
/// and then each member framed; `sadd` of a new member puts it last,
/// `srem` takes a member out, and `sclear` empties the set.
pub proof fn law_set_reads(m: Map<Seq<u8>, ValueView>, k: Seq<char>, s: Seq<Seq<u8>>, x: Seq<char>)
    requires
        m.dom().contains(ub(k)),
        m[ub(k)] == ValueView::Members(s),
        s.no_duplicates(),
    ensures
        set_op(m, seq!["scontains"@, k, x]) == (
            m,
            Ok::<Option<Seq<u8>>, ErrorView>(Some(if s.contains(ub(x)) { seq![1u8] } else { seq![0u8] })),
        ),
        set_op(m, seq!["slen"@, k]) == (m, Ok::<Option<Seq<u8>>, ErrorView>(Some(u64_be(s.len() as u64)))),
        set_op(m, seq!["svalues"@, k]) == (
            m,
            Ok::<Option<Seq<u8>>, ErrorView>(Some(u64_be(s.len() as u64) + frame_items(s))),
        ),
        !s.contains(ub(x)) ==> set_op(m, seq!["sadd"@, k, x]) == (
            m.insert(ub(k), ValueView::Members(s.push(ub(x)))),
            Ok::<Option<Seq<u8>>, ErrorView>(None),
        ),
        set_op(m, seq!["sadd"@, k, x]).1 == Ok::<Option<Seq<u8>>, ErrorView>(None),
        set_op(set_op(m, seq!["sadd"@, k, x]).0, seq!["scontains"@, k, x]).1 == Ok::<
            Option<Seq<u8>>,
            ErrorView,
        >(Some(seq![1u8])),
        set_op(set_op(m, seq!["srem"@, k, x]).0, seq!["scontains"@, k, x]).1 == Ok::<
            Option<Seq<u8>>,
            ErrorView,
        >(Some(seq![0u8])),
        set_op(m, seq!["sclear"@, k]) == (
            m.insert(ub(k), ValueView::Members(seq![])),
            Ok::<Option<Seq<u8>>, ErrorView>(None),
        ),
{
    lemma_set_names();
    crate::redis::lemma_set_add(s, ub(x));
    crate::redis::lemma_set_remove(s, ub(x));
}

/// A transaction runs its lines one by one: its answer for one more line
/// is its answer for the others followed by that line's answer line, and
/// an answer line is the payload, `OK`, or the error's text, then a newline.
pub proof fn law_transaction_is_fold(m: Map<Seq<u8>, ValueView>, ls: Seq<Seq<char>>, l: Seq<char>, x: Seq<u8>)
    ensures
        transaction_run(m, Seq::<Seq<char>>::empty()).1 == Seq::<u8>::empty(),
        ({
            let before = transaction_run(m, ls);
            let step = transaction_step(before.0, l);
            transaction_run(m, ls.push(l)) == (step.0, before.1 + answer_line(step.1), before.2 + step.2)
        }),
        answer_line(Ok(Some(x))) == x + seq![10u8],
        answer_line(Ok(None)) == seq![79u8, 75u8, 10u8],
{
    assert(ls.push(l).drop_last() =~= ls);
    assert(x.push(10u8) =~= x + seq![10u8]);
}

} // verus!
