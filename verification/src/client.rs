//! The client: the state of a session, what each line typed at the prompt
//! asks for, and the requests it sends.

use vstd::prelude::*;
use vstd::string::*;
use vstd::utf8::*;
use crate::protocol::{encode_request, request_frame};
use crate::pubsub::lowercase;
use crate::text::{
    ascii_lower, char_seqs, chars_of, decimal, is_ascii_text, is_text, join_words, lines,
    parse_usize, parse_usize_chars, push_decimal, split_words, string_of, words,
};

verus! {

broadcast use encode_utf8_decode_utf8, encode_utf8_valid_utf8;

/// The state of a client session: whether a transaction is being queued,
/// the queued commands, and whether the session listens to channels.
pub struct ClientSession {
    pub transaction_mode: bool,
    pub transaction_queue: Vec<String>,
    pub subscription_mode: bool,
}

/// What the state of a session holds.
pub struct SessionView {
    pub transaction_mode: bool,
    pub transaction_queue: Seq<Seq<char>>,
    pub subscription_mode: bool,
}

/// The texts of a sequence of strings.
pub open spec fn texts(v: Seq<String>) -> Seq<Seq<char>> {
    v.map_values(|s: String| s@)
}

impl View for ClientSession {
    type V = SessionView;

    open spec fn view(&self) -> SessionView {
        SessionView {
            transaction_mode: self.transaction_mode,
            transaction_queue: texts(self.transaction_queue@),
            subscription_mode: self.subscription_mode,
        }
    }
}

impl ClientSession {
    /// A session that queues nothing and listens to no channel.
    pub fn new() -> (r: Self)
        ensures
            r@ == (SessionView {
                transaction_mode: false,
                transaction_queue: seq![],
                subscription_mode: false,
            }),
    {
        let r = ClientSession {
            transaction_mode: false,
            transaction_queue: Vec::new(),
            subscription_mode: false,
        };
        assert(r@.transaction_queue =~= Seq::<Seq<char>>::empty());
        r
    }
}

/// What the client does with the answer to a request it has sent.
#[derive(PartialEq, Eq, Structural, Clone, Copy, Debug)]
pub enum ReplyKind {
    /// Read an answer without payload and print `OK`.
    Done,
    /// Read an answer with a payload and print it.
    Value,
    /// Read nothing, print `OK` and start listening to the channel.
    Subscribe,
    /// Read nothing and print nothing.
    Publish,
    /// Read nothing, stop listening and print `OK`.
    Unsubscribe,
    /// Read the answer of a transaction and print it.
    Exec,
}

/// What the client is to do for one line typed at the prompt.
pub enum CliAction {
    /// Nothing: the line was empty.
    Nothing,
    /// Print this line.
    Print(String),
    /// Say goodbye and stop.
    Quit,
    /// Send this request and treat its answer as the kind says.
    Send(Vec<u8>, ReplyKind),
}

/// What an action holds.
pub enum ActionView {
    Nothing,
    Print(Seq<char>),
    Quit,
    Send(Seq<u8>, ReplyKind),
}

impl View for CliAction {
    type V = ActionView;

    open spec fn view(&self) -> ActionView {
        match self {
            CliAction::Nothing => ActionView::Nothing,
            CliAction::Print(s) => ActionView::Print(s@),
            CliAction::Quit => ActionView::Quit,
            CliAction::Send(f, k) => ActionView::Send(f@, *k),
        }
    }
}

/// The queued commands, each followed by a newline.
pub open spec fn queue_text(q: Seq<Seq<char>>) -> Seq<char>
    decreases q.len(),
{
    if q.len() == 0 {
        seq![]
    } else {
        queue_text(q.drop_last()) + q.last() + "\n"@
    }
}

/// The request that runs the queued commands as a transaction.
pub open spec fn transaction_frame(q: Seq<Seq<char>>) -> Seq<u8> {
    request_frame(encode_utf8("transaction"@), encode_utf8(queue_text(q)))
}

/// What a command of the key space needs at the prompt: the type of the
/// command, the usage line, the number of words, whether its answer
/// carries a payload, whether its third word is an index, and whether it
/// creates a value.
pub struct CmdInfo {
    pub kind: Seq<char>,
    pub usage: Seq<char>,
    pub arity: nat,
    pub value: bool,
    pub index: bool,
    pub create: bool,
}

/// The command entry with the given type, usage, arity and payload flag,
/// without an index and not creating a value.
pub open spec fn plain_cmd(kind: Seq<char>, usage: Seq<char>, arity: nat, value: bool) -> CmdInfo {
    CmdInfo { kind, usage, arity, value, index: false, create: false }
}

/// What the prompt knows of the key-space command `name`, if it is one.
pub open spec fn cmd_info(name: Seq<char>) -> Option<CmdInfo> {
    if name == "set"@ {
        Some(plain_cmd("string"@, "Usage: SET key value"@, 3, false))
    } else if name == "get"@ {
        Some(plain_cmd("string"@, "Usage: GET key"@, 2, true))
    } else if name == "append"@ {
        Some(plain_cmd("string"@, "Usage: APPEND key value"@, 3, false))
    } else if name == "len"@ {
        Some(plain_cmd("string"@, "Usage: LEN key"@, 2, true))
    } else if name == "lcreate"@ {
        Some(CmdInfo { create: true, ..plain_cmd("list"@, "Usage: LCREATE key"@, 2, false) })
    } else if name == "lpush"@ {
        Some(plain_cmd("list"@, "Usage: LPUSH key value"@, 3, false))
    } else if name == "rpush"@ {
        Some(plain_cmd("list"@, "Usage: RPUSH key value"@, 3, false))
    } else if name == "lpop"@ {
        Some(plain_cmd("list"@, "Usage: LPOP key"@, 2, true))
    } else if name == "rpop"@ {
        Some(plain_cmd("list"@, "Usage: RPOP key"@, 2, true))
    } else if name == "llen"@ {
        Some(plain_cmd("list"@, "Usage: LLEN key"@, 2, true))
    } else if name == "lindex"@ {
        Some(CmdInfo { index: true, ..plain_cmd("list"@, "Usage: LINDEX key index"@, 3, true) })
    } else if name == "lset"@ {
        Some(
            CmdInfo { index: true, ..plain_cmd("list"@, "Usage: LSET key index value"@, 4, false) },
        )
    } else if name == "lclear"@ {
        Some(plain_cmd("list"@, "Usage: LCLEAR key"@, 2, false))
    } else if name == "hcreate"@ {
        Some(CmdInfo { create: true, ..plain_cmd("hash"@, "Usage: HCREATE key"@, 2, false) })
    } else if name == "hset"@ {
        Some(plain_cmd("hash"@, "Usage: HSET key field value"@, 4, false))
    } else if name == "hget"@ {
        Some(plain_cmd("hash"@, "Usage: HGET key field"@, 3, true))
    } else if name == "hexists"@ {
        Some(plain_cmd("hash"@, "Usage: HEXISTS key field"@, 3, true))
    } else if name == "hdel"@ {
        Some(plain_cmd("hash"@, "Usage: HDEL key field"@, 3, false))
    } else if name == "hlen"@ {
        Some(plain_cmd("hash"@, "Usage: HLEN key"@, 2, true))
    } else if name == "hclear"@ {
        Some(plain_cmd("hash"@, "Usage: HCLEAR key"@, 2, false))
    } else if name == "hkeys"@ {
        Some(plain_cmd("hash"@, "Usage: HKEYS key"@, 2, true))
    } else if name == "hvalues"@ {
        Some(plain_cmd("hash"@, "Usage: HVALUES key"@, 2, true))
    } else if name == "screate"@ {
        Some(CmdInfo { create: true, ..plain_cmd("set"@, "Usage: SCREATE key"@, 2, false) })
    } else if name == "sadd"@ {
        Some(plain_cmd("set"@, "Usage: SADD key value"@, 3, false))
    } else if name == "srem"@ {
        Some(plain_cmd("set"@, "Usage: SREM key value"@, 3, false))
    } else if name == "scontains"@ {
        Some(plain_cmd("set"@, "Usage: SCONTAINS key value"@, 3, true))
    } else if name == "slen"@ {
        Some(plain_cmd("set"@, "Usage: SLEN key"@, 2, true))
    } else if name == "sclear"@ {
        Some(plain_cmd("set"@, "Usage: SCLEAR key"@, 2, false))
    } else if name == "svalues"@ {
        Some(plain_cmd("set"@, "Usage: SVALUES key"@, 2, true))
    } else {
        None
    }
}

/// Every key-space command takes a key, and one with an index takes it
/// after the key.
proof fn lemma_cmd_info_shape(name: Seq<char>)
    ensures
        cmd_info(name) matches Some(i) ==> i.arity >= 2 && (i.index ==> i.arity >= 3),
{
}

/// No key-space command has the name of one of the prompt's own commands.
pub proof fn lemma_cmd_name_distinct(name: Seq<char>)
    requires
        cmd_info(name) is Some,
    ensures
        name != "subscribe"@,
        name != "publish"@,
        name != "unsubscribe"@,
        name != "multi"@,
        name != "exec"@,
        name != "discard"@,
        name != "exit"@,
        name != "quit"@,
{
    reveal_strlit("set");
    reveal_strlit("get");
    reveal_strlit("append");
    reveal_strlit("len");
    reveal_strlit("lcreate");
    reveal_strlit("lpush");
    reveal_strlit("rpush");
    reveal_strlit("lpop");
    reveal_strlit("rpop");
    reveal_strlit("llen");
    reveal_strlit("lindex");
    reveal_strlit("lset");
    reveal_strlit("lclear");
    reveal_strlit("hcreate");
    reveal_strlit("hset");
    reveal_strlit("hget");
    reveal_strlit("hexists");
    reveal_strlit("hdel");
    reveal_strlit("hlen");
    reveal_strlit("hclear");
    reveal_strlit("hkeys");
    reveal_strlit("hvalues");
    reveal_strlit("screate");
    reveal_strlit("sadd");
    reveal_strlit("srem");
    reveal_strlit("scontains");
    reveal_strlit("slen");
    reveal_strlit("sclear");
    reveal_strlit("svalues");
    reveal_strlit("subscribe");
    reveal_strlit("publish");
    reveal_strlit("unsubscribe");
    reveal_strlit("multi");
    reveal_strlit("exec");
    reveal_strlit("discard");
    reveal_strlit("exit");
    reveal_strlit("quit");
    assert(name.len() == 4 ==> name[0] != 'e' && name[0] != 'q');
    assert(name.len() == 5 ==> name[0] != 'm');
    assert(name.len() == 7 ==> name[0] != 'p' && name[0] != 'd');
    assert(name.len() == 9 ==> name[1] != 'u');
}

/// The entry of the command table for one key-space command.
pub struct CmdEntry {
    pub kind: &'static str,
    pub usage: &'static str,
    pub arity: usize,
    pub value: bool,
    pub index: bool,
    pub create: bool,
}

/// What an entry of the command table says.
pub open spec fn entry_view(e: CmdEntry) -> CmdInfo {
    CmdInfo {
        kind: e.kind@,
        usage: e.usage@,
        arity: e.arity as nat,
        value: e.value,
        index: e.index,
        create: e.create,
    }
}

fn entry(kind: &'static str, usage: &'static str, arity: usize, value: bool) -> (r: CmdEntry)
    ensures
        entry_view(r) == plain_cmd(kind@, usage@, arity as nat, value),
{
    CmdEntry { kind, usage, arity, value, index: false, create: false }
}

/// The command table entry for `name`, if it is a key-space command.
pub fn command_table(name: &Vec<char>) -> (r: Option<CmdEntry>)
    ensures
        match cmd_info(name@) {
            Some(i) => r matches Some(e) && entry_view(e) == i,
            None => r is None,
        },
{
    if is_text(name, "set") {
        Some(entry("string", "Usage: SET key value", 3, false))
    } else if is_text(name, "get") {
        Some(entry("string", "Usage: GET key", 2, true))
    } else if is_text(name, "append") {
        Some(entry("string", "Usage: APPEND key value", 3, false))
    } else if is_text(name, "len") {
        Some(entry("string", "Usage: LEN key", 2, true))
    } else if is_text(name, "lcreate") {
        Some(CmdEntry { create: true, ..entry("list", "Usage: LCREATE key", 2, false) })
    } else if is_text(name, "lpush") {
        Some(entry("list", "Usage: LPUSH key value", 3, false))
    } else if is_text(name, "rpush") {
        Some(entry("list", "Usage: RPUSH key value", 3, false))
    } else if is_text(name, "lpop") {
        Some(entry("list", "Usage: LPOP key", 2, true))
    } else if is_text(name, "rpop") {
        Some(entry("list", "Usage: RPOP key", 2, true))
    } else if is_text(name, "llen") {
        Some(entry("list", "Usage: LLEN key", 2, true))
    } else if is_text(name, "lindex") {
        Some(CmdEntry { index: true, ..entry("list", "Usage: LINDEX key index", 3, true) })
    } else if is_text(name, "lset") {
        Some(CmdEntry { index: true, ..entry("list", "Usage: LSET key index value", 4, false) })
    } else if is_text(name, "lclear") {
        Some(entry("list", "Usage: LCLEAR key", 2, false))
    } else if is_text(name, "hcreate") {
        Some(CmdEntry { create: true, ..entry("hash", "Usage: HCREATE key", 2, false) })
    } else if is_text(name, "hset") {
        Some(entry("hash", "Usage: HSET key field value", 4, false))
    } else if is_text(name, "hget") {
        Some(entry("hash", "Usage: HGET key field", 3, true))
    } else if is_text(name, "hexists") {
        Some(entry("hash", "Usage: HEXISTS key field", 3, true))
    } else if is_text(name, "hdel") {
        Some(entry("hash", "Usage: HDEL key field", 3, false))
    } else if is_text(name, "hlen") {
        Some(entry("hash", "Usage: HLEN key", 2, true))
    } else if is_text(name, "hclear") {
        Some(entry("hash", "Usage: HCLEAR key", 2, false))
    } else if is_text(name, "hkeys") {
        Some(entry("hash", "Usage: HKEYS key", 2, true))
    } else if is_text(name, "hvalues") {
        Some(entry("hash", "Usage: HVALUES key", 2, true))
    } else if is_text(name, "screate") {
        Some(CmdEntry { create: true, ..entry("set", "Usage: SCREATE key", 2, false) })
    } else if is_text(name, "sadd") {
        Some(entry("set", "Usage: SADD key value", 3, false))
    } else if is_text(name, "srem") {
        Some(entry("set", "Usage: SREM key value", 3, false))
    } else if is_text(name, "scontains") {
        Some(entry("set", "Usage: SCONTAINS key value", 3, true))
    } else if is_text(name, "slen") {
        Some(entry("set", "Usage: SLEN key", 2, true))
    } else if is_text(name, "sclear") {
        Some(entry("set", "Usage: SCLEAR key", 2, false))
    } else if is_text(name, "svalues") {
        Some(entry("set", "Usage: SVALUES key", 2, true))
    } else {
        None
    }
}

/// Appends the characters `b` to `a`.
fn push_chars(a: &mut Vec<char>, b: &Vec<char>)
    ensures
        final(a)@ == old(a)@ + b@,
{
    let mut i: usize = 0;
    while i < b.len()
        invariant
            i <= b@.len(),
            a@ == old(a)@ + b@.take(i as int),
        decreases b.len() - i,
    {
        a.push(b[i]);
        i += 1;
        assert(a@ =~= old(a)@ + b@.take(i as int));
    }
    assert(b@.take(b@.len() as int) =~= b@);
}

/// Appends the text `t` to `a`.
fn push_text(a: &mut Vec<char>, t: &str)
    ensures
        final(a)@ == old(a)@ + t@,
{
    let c = chars_of(t);
    push_chars(a, &c);
}

/// The words of `ws` from position `from` on, joined by single spaces.
pub fn join_from(ws: &Vec<Vec<char>>, from: usize) -> (r: Vec<char>)
    requires
        from <= ws@.len(),
    ensures
        r@ == join_words(char_seqs(ws@).skip(from as int)),
{
    let ghost s = char_seqs(ws@);
    let mut out: Vec<char> = Vec::new();
    if from == ws.len() {
        assert(s.skip(from as int) =~= Seq::<Seq<char>>::empty());
        return out;
    }
    push_chars(&mut out, &ws[from]);
    let mut i: usize = from + 1;
    assert(s.subrange(from as int, i as int) =~= seq![s[from as int]]);
    assert(out@ =~= s[from as int]);
    while i < ws.len()
        invariant
            from < i <= ws@.len(),
            s == char_seqs(ws@),
            out@ == join_words(s.subrange(from as int, i as int)),
        decreases ws.len() - i,
    {
        let ghost before = out@;
        out.push(' ');
        push_chars(&mut out, &ws[i]);
        proof {
            let sub = s.subrange(from as int, i + 1);
            assert(sub.drop_last() =~= s.subrange(from as int, i as int));
            assert(sub.last() == s[i as int]);
            assert(s[i as int] == ws@[i as int]@);
            assert(out@ =~= before + " "@ + s[i as int]) by {
                reveal_strlit(" ");
            }
        }
        i += 1;
    }
    assert(s.subrange(from as int, i as int) =~= s.skip(from as int));
    out
}

/// What the session does before a command runs: in a transaction the
/// command is queued as its type, its name and its arguments; listening to
/// channels, only the publish/subscribe commands run; the message to print
/// where the command does not run now.
pub open spec fn mode_check(s: SessionView, command: Seq<char>, t: Seq<char>, op: Seq<char>) -> (
    SessionView,
    Option<Seq<char>>,
) {
    if s.transaction_mode {
        (
            SessionView {
                transaction_queue: s.transaction_queue.push(t + " "@ + op + " "@ + command),
                ..s
            },
            Some("QUEUED"@),
        )
    } else if s.subscription_mode && op != "subscribe"@ && op != "unsubscribe"@ && op
        != "publish"@ {
        (s, Some("(error) Can't execute '"@ + op + "' while in subscription mode"@))
    } else {
        (s, None)
    }
}

/// Queues or refuses the command `command` of type `t` named `operation`
/// as the session's mode says; the message to print where it does not run
/// now, `None` where it is to run.
pub fn ModeHandler(redis: &mut ClientSession, command: &str, t: &str, operation: &str) -> (r:
    Option<String>)
    ensures
        final(redis)@ == mode_check(old(redis)@, command@, t@, operation@).0,
        match mode_check(old(redis)@, command@, t@, operation@).1 {
            Some(m) => r matches Some(x) && x@ == m,
            None => r is None,
        },
{
    if redis.transaction_mode {
        let mut q = t.to_string();
        q.append(" ");
        q.append(operation);
        q.append(" ");
        q.append(command);
        let ghost before = redis.transaction_queue@;
        let ghost qv = q@;
        redis.transaction_queue.push(q);
        assert(texts(redis.transaction_queue@) =~= texts(before).push(qv));
        return Some("QUEUED".to_string());
    }
    let op = chars_of(operation);
    if redis.subscription_mode && !is_text(&op, "subscribe") && !is_text(&op, "unsubscribe")
        && !is_text(&op, "publish") {
        let mut m = "(error) Can't execute '".to_string();
        m.append(operation);
        m.append("' while in subscription mode");
        return Some(m);
    }
    None
}

/// The action for a command after the session's mode is consulted: the
/// message of the mode where it does not run now, else `action`.
pub open spec fn with_mode(
    s: SessionView,
    t: Seq<char>,
    op: Seq<char>,
    command: Seq<char>,
    action: ActionView,
) -> (SessionView, ActionView) {
    let m = mode_check(s, command, t, op);
    match m.1 {
        Some(text) => (m.0, ActionView::Print(text)),
        None => (m.0, action),
    }
}

/// The command text that a key-space command sends: its name and its
/// arguments, an index written out in decimal, a creating command with an
/// empty value after the key.
pub open spec fn request_text(name: Seq<char>, parts: Seq<Seq<char>>, info: CmdInfo) -> Seq<char> {
    if info.create {
        name + " "@ + parts[1] + " "@
    } else if info.index {
        let i = parse_usize(parts[2])->Some_0;
        if info.arity == 4 {
            name + " "@ + parts[1] + " "@ + decimal(i) + " "@ + parts[3]
        } else {
            name + " "@ + parts[1] + " "@ + decimal(i)
        }
    } else {
        name + " "@ + join_words(parts.skip(1))
    }
}

/// What a key-space command named `name`, typed as the words `parts`, does.
pub open spec fn data_step(s: SessionView, name: Seq<char>, parts: Seq<Seq<char>>, info: CmdInfo) -> (
    SessionView,
    ActionView,
) {
    if parts.len() != info.arity {
        (s, ActionView::Print(info.usage))
    } else if info.index && parse_usize(parts[2]) is None {
        (s, ActionView::Print("(error) index must be a number"@))
    } else {
        with_mode(
            s,
            info.kind,
            name,
            join_words(parts.skip(1)),
            ActionView::Send(
                request_frame(encode_utf8(info.kind), encode_utf8(request_text(name, parts, info))),
                if info.value {
                    ReplyKind::Value
                } else {
                    ReplyKind::Done
                },
            ),
        )
    }
}

/// A request of the publish/subscribe type.
pub open spec fn pubsub_request(command: Seq<char>) -> Seq<u8> {
    request_frame(encode_utf8("pubSub"@), encode_utf8(command))
}

/// What the line whose words are `parts`, the first of which is `name` in
/// lower case, does to the session and asks the client to do.
pub open spec fn cli_named(s: SessionView, name: Seq<char>, parts: Seq<Seq<char>>) -> (
    SessionView,
    ActionView,
) {
    if name == "subscribe"@ {
        if parts.len() != 2 {
            (s, ActionView::Print("Usage: SUBSCRIBE channel"@))
        } else {
            with_mode(
                s,
                "pubsub"@,
                "subscribe"@,
                parts[1],
                ActionView::Send(pubsub_request("subscribe "@ + parts[1]), ReplyKind::Subscribe),
            )
        }
    } else if name == "publish"@ {
        if parts.len() < 3 {
            (s, ActionView::Print("Usage: PUBLISH channel message"@))
        } else {
            with_mode(
                s,
                "pubsub"@,
                "publish"@,
                join_words(parts.skip(1)),
                ActionView::Send(
                    pubsub_request("publish "@ + join_words(parts.skip(1))),
                    ReplyKind::Publish,
                ),
            )
        }
    } else if name == "unsubscribe"@ {
        if parts.len() != 2 {
            (s, ActionView::Print("Usage: UNSUBSCRIBE channel"@))
        } else {
            with_mode(
                s,
                "pubsub"@,
                "unsubscribe"@,
                parts[1],
                ActionView::Send(pubsub_request("unsubscribe "@ + parts[1]), ReplyKind::Unsubscribe),
            )
        }
    } else if name == "multi"@ {
        if parts.len() != 1 {
            (s, ActionView::Print("Usage: MULTI"@))
        } else if s.transaction_mode {
            (s, ActionView::Print("(error) MULTI calls cannot be nested"@))
        } else {
            (
                SessionView { transaction_mode: true, transaction_queue: seq![], ..s },
                ActionView::Print("OK"@),
            )
        }
    } else if name == "exec"@ {
        if parts.len() != 1 {
            (s, ActionView::Print("Usage: EXEC"@))
        } else if !s.transaction_mode {
            (s, ActionView::Print("(error) EXEC without MULTI"@))
        } else {
            (
                SessionView { transaction_mode: false, transaction_queue: seq![], ..s },
                ActionView::Send(transaction_frame(s.transaction_queue), ReplyKind::Exec),
            )
        }
    } else if name == "discard"@ {
        if parts.len() != 1 {
            (s, ActionView::Print("Usage: DISCARD"@))
        } else if !s.transaction_mode {
            (s, ActionView::Print("(error) DISCARD without MULTI"@))
        } else {
            (
                SessionView { transaction_mode: false, transaction_queue: seq![], ..s },
                ActionView::Print("OK"@),
            )
        }
    } else if name == "exit"@ || name == "quit"@ {
        (s, ActionView::Quit)
    } else {
        match cmd_info(name) {
            Some(info) => data_step(s, name, parts, info),
            None => (s, ActionView::Print("Unknown command: "@ + parts[0])),
        }
    }
}

/// What the line `input` typed at the prompt does to the session and asks
/// the client to do.
pub open spec fn cli_step_spec(s: SessionView, input: Seq<char>) -> (SessionView, ActionView) {
    let parts = words(input);
    if parts.len() == 0 {
        (s, ActionView::Nothing)
    } else {
        cli_named(s, lowercase(parts[0]), parts)
    }
}

/// The queued commands, each followed by a newline.
pub fn queue_chars(q: &Vec<String>) -> (r: Vec<char>)
    ensures
        r@ == queue_text(texts(q@)),
{
    let ghost t = texts(q@);
    let mut out: Vec<char> = Vec::new();
    let mut i: usize = 0;
    assert(t.take(0) =~= Seq::<Seq<char>>::empty());
    while i < q.len()
        invariant
            i <= q@.len(),
            t == texts(q@),
            out@ == queue_text(t.take(i as int)),
        decreases q.len() - i,
    {
        push_text(&mut out, q[i].as_str());
        push_text(&mut out, "\n");
        proof {
            assert(t.take(i + 1).drop_last() =~= t.take(i as int));
            assert(t.take(i + 1).last() == q@[i as int]@);
        }
        i += 1;
    }
    assert(t.take(i as int) =~= t);
    out
}

/// The request that runs the queued commands of the session as a transaction.
pub fn HandleTransaction(redis: &ClientSession) -> (r: Vec<u8>)
    ensures
        r@ == transaction_frame(redis@.transaction_queue),
{
    let text = queue_chars(&redis.transaction_queue);
    let s = string_of(&text);
    encode_request("transaction", s.as_str())
}

/// The action for a key-space command with its table entry.
fn data_command(
    session: &mut ClientSession,
    name: &Vec<char>,
    parts: &Vec<Vec<char>>,
    e: CmdEntry,
) -> (r: CliAction)
    requires
        parts@.len() > 0,
        e.arity >= 2,
        e.index ==> e.arity >= 3,
    ensures
        (final(session)@, r@) == data_step(old(session)@, name@, char_seqs(parts@), entry_view(e)),
{
    let ghost ps = char_seqs(parts@);
    let ghost info = entry_view(e);
    if parts.len() != e.arity {
        return CliAction::Print(e.usage.to_string());
    }
    let mut index: usize = 0;
    if e.index {
        assert(ps[2] == parts@[2]@);
        match parse_usize_chars(&parts[2]) {
            Some(i) => {
                index = i;
            },
            None => {
                return CliAction::Print("(error) index must be a number".to_string());
            },
        }
    }
    let args = join_from(parts, 1);
    let name_s = string_of(name);
    let mode = ModeHandler(session, string_of(&args).as_str(), e.kind, name_s.as_str());
    match mode {
        Some(m) => CliAction::Print(m),
        None => {
            let mut text: Vec<char> = Vec::new();
            push_chars(&mut text, name);
            push_text(&mut text, " ");
            assert(ps[1] == parts@[1]@);
            if e.create {
                push_chars(&mut text, &parts[1]);
                push_text(&mut text, " ");
            } else if e.index {
                push_chars(&mut text, &parts[1]);
                push_text(&mut text, " ");
                push_decimal(&mut text, index as u64);
                if e.arity == 4 {
                    assert(ps[3] == parts@[3]@);
                    push_text(&mut text, " ");
                    push_chars(&mut text, &parts[3]);
                }
            } else {
                push_chars(&mut text, &args);
            }
            assert(text@ =~= request_text(name@, ps, info));
            let frame = encode_request(e.kind, string_of(&text).as_str());
            CliAction::Send(
                frame,
                if e.value {
                    ReplyKind::Value
                } else {
                    ReplyKind::Done
                },
            )
        },
    }
}

/// What the line whose words are `parts`, the first of which is `name` in
/// lower case, does to the session and asks the client to do.
pub fn cli_command(session: &mut ClientSession, name: &Vec<char>, parts: &Vec<Vec<char>>) -> (r:
    CliAction)
    requires
        parts@.len() > 0,
    ensures
        (final(session)@, r@) == cli_named(old(session)@, name@, char_seqs(parts@)),
{
    let ghost ps = char_seqs(parts@);
    if is_text(name, "subscribe") {
        if parts.len() != 2 {
            return CliAction::Print("Usage: SUBSCRIBE channel".to_string());
        }
        assert(ps[1] == parts@[1]@);
        let channel = string_of(&parts[1]);
        match ModeHandler(session, channel.as_str(), "pubsub", "subscribe") {
            Some(m) => CliAction::Print(m),
            None => {
                let mut text = "subscribe ".to_string();
                text.append(channel.as_str());
                CliAction::Send(encode_request("pubSub", text.as_str()), ReplyKind::Subscribe)
            },
        }
    } else if is_text(name, "publish") {
        if parts.len() < 3 {
            return CliAction::Print("Usage: PUBLISH channel message".to_string());
        }
        let args = string_of(&join_from(parts, 1));
        match ModeHandler(session, args.as_str(), "pubsub", "publish") {
            Some(m) => CliAction::Print(m),
            None => {
                let mut text = "publish ".to_string();
                text.append(args.as_str());
                CliAction::Send(encode_request("pubSub", text.as_str()), ReplyKind::Publish)
            },
        }
    } else if is_text(name, "unsubscribe") {
        if parts.len() != 2 {
            return CliAction::Print("Usage: UNSUBSCRIBE channel".to_string());
        }
        assert(ps[1] == parts@[1]@);
        let channel = string_of(&parts[1]);
        match ModeHandler(session, channel.as_str(), "pubsub", "unsubscribe") {
            Some(m) => CliAction::Print(m),
            None => {
                let mut text = "unsubscribe ".to_string();
                text.append(channel.as_str());
                CliAction::Send(encode_request("pubSub", text.as_str()), ReplyKind::Unsubscribe)
            },
        }
    } else if is_text(name, "multi") {
        if parts.len() != 1 {
            return CliAction::Print("Usage: MULTI".to_string());
        }
        if session.transaction_mode {
            return CliAction::Print("(error) MULTI calls cannot be nested".to_string());
        }
        session.transaction_mode = true;
        session.transaction_queue = Vec::new();
        assert(session@.transaction_queue =~= Seq::<Seq<char>>::empty());
        CliAction::Print("OK".to_string())
    } else if is_text(name, "exec") {
        if parts.len() != 1 {
            return CliAction::Print("Usage: EXEC".to_string());
        }
        if !session.transaction_mode {
            return CliAction::Print("(error) EXEC without MULTI".to_string());
        }
        let frame = HandleTransaction(session);
        session.transaction_queue = Vec::new();
        session.transaction_mode = false;
        assert(session@.transaction_queue =~= Seq::<Seq<char>>::empty());
        CliAction::Send(frame, ReplyKind::Exec)
    } else if is_text(name, "discard") {
        if parts.len() != 1 {
            return CliAction::Print("Usage: DISCARD".to_string());
        }
        if !session.transaction_mode {
            return CliAction::Print("(error) DISCARD without MULTI".to_string());
        }
        session.transaction_queue = Vec::new();
        session.transaction_mode = false;
        assert(session@.transaction_queue =~= Seq::<Seq<char>>::empty());
        CliAction::Print("OK".to_string())
    } else if is_text(name, "exit") || is_text(name, "quit") {
        CliAction::Quit
    } else {
        proof {
            lemma_cmd_info_shape(name@);
        }
        match command_table(name) {
            Some(e) => data_command(session, name, parts, e),
            None => {
                let mut m = "Unknown command: ".to_string();
                assert(ps[0] == parts@[0]@);
                m.append(string_of(&parts[0]).as_str());
                CliAction::Print(m)
            },
        }
    }
}

/// What the line `input` typed at the prompt does to the session and asks
/// the client to do.
pub fn cli_step(session: &mut ClientSession, input: &str) -> (r: CliAction)
    ensures
        (final(session)@, r@) == cli_step_spec(old(session)@, input@),
        words(input@).len() > 0 && is_ascii_text(words(input@)[0]) ==> lowercase(
            words(input@)[0],
        ) == ascii_lower(words(input@)[0]),
{
    let cs = chars_of(input);
    let parts = split_words(&cs);
    if parts.len() == 0 {
        return CliAction::Nothing;
    }
    let first = string_of(&parts[0]);
    let lowered = crate::pubsub::to_lowercase_text(first.as_str());
    let name = chars_of(lowered.as_str());
    cli_command(session, &name, &parts)
}

/// What the session records once a request has been sent, or has failed to
/// go out: listening starts after a subscription goes out and stops after
/// an unsubscription goes out.
pub fn finish_request(session: &mut ClientSession, kind: ReplyKind, sent: bool)
    ensures
        final(session)@.transaction_mode == old(session)@.transaction_mode,
        final(session)@.transaction_queue == old(session)@.transaction_queue,
        final(session)@.subscription_mode == (if sent && kind == ReplyKind::Subscribe {
            true
        } else if sent && kind == ReplyKind::Unsubscribe {
            false
        } else {
            old(session)@.subscription_mode
        }),
{
    if sent {
        match kind {
            ReplyKind::Subscribe => {
                session.subscription_mode = true;
            },
            ReplyKind::Unsubscribe => {
                session.subscription_mode = false;
            },
            _ => {},
        }
    }
}

} // verus!
