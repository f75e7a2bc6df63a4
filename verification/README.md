# redis_clone

A small Redis-like key-value server and its command-line client. Keys hold
strings, lists, hashes or sets; clients can run transactions and publish to
and subscribe to channels; `set` commands are appended to a command log that
can be replayed.

## Layout

- `src/` — the library, verified with Verus: the value types and the key
  space, every command and its answer, the wire format of requests and
  answers, transactions, publish/subscribe, the command log and its replay,
  expiry bookkeeping, what each line typed at the prompt asks for, and the
  median latency of a benchmark. `src/laws.rs` states and proves properties
  that relate several operations (a read gives back what a write stored, a
  pop undoes a push, a framed answer reads back as sent, and so on).
- `app/` — the program around it: sockets and tasks (tokio), the log file,
  the prompt, and the load tests. It reads and writes bytes and hands every
  decision to the library.
- `tests/` — tests of the library on concrete values.

The server and the client read the address from the `redis_server_addr`
environment variable (a `.env` file is loaded if present).
