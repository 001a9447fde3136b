# greader_sync

Two-way synchronisation of a local feed reader with a server that speaks the
Google Reader API (FreshRSS, Miniflux).

`src/` is the library. It decides what is sent, stored and counted, and is
verified with Verus. It does no input or output: every flow is a state machine
that names its next action and takes the answer to it.

- `start` is the beginning of a synchronisation, up to its session; `run` is
  the rest of it.
- `session` and `account` open a connection and say what is stored of it.
- `edits` and `feeds` push queued local changes.
- `subscriptions`, `apply` and `article` bring remote feeds and items to the
  local store.
- `auto_sync` decides when queued edits are flushed.
- `provider`, `freshrss`, `http` and `wire` hold the protocol.
- `outside` holds the calls into other crates, with what is relied on.
- `text`, `number` and `feed_ids` are helpers.

The proof functions named `law_..` state what holds of the library as a whole.

`app/` carries the actions out: it owns the database connection, the HTTP
client and the timers. `tests/` runs the library against a store in memory.
