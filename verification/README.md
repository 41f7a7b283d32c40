# agm_supervisor

The supervisor layer of a daemon that runs coding bots on a machine. Two bots of its own keep things
going: the manager (patrol), which the user talks to, and the responder, which answers the other bots.
This library holds what they rest on: assignments and the decisions on them, the inbox of events, who is
woken for what, approvals and the leases that rest on them, the windows in which the daemon may be rebuilt
or restarted, the watchdogs, the choice of a model by quota, and the environments of the two roles.

Everything is written in Verus. Each function says in its contract exactly what it returns and what it
changes; the laws that span several functions are public proof functions, each at the end of its module.

## Layout

- `src/` — the library. `store` holds the tables as plain values, `rows` their rows, `table` what is done
  with rows in general. `text` and `time` are the ground everything stands on; `json` is the only place
  that writes and reads JSON. The other modules are the rules, one subject each.
- `tests/` — the library from outside, on concrete values.
- `app/` — ordinary Rust around it: SQLite, the configuration file, the sessions, the HTTP routes. It
  decides nothing. What it needs of the rest of the daemon is the trait `daemon::Daemon`.

## What is taken on trust

Times are read, written and subtracted by `chrono`, and JSON is read and written by `serde_json`. The
functions that call them are marked `external_body`, in `src/time.rs` and `src/json.rs`; so is the one in
`src/text.rs` that asks `format!` for the debug form of a text. The comment above each says what is claimed
of the call.
