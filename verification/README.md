# cursor-bridge

A bridge that lets a client of the Messages API work on an agent that runs as a command-line
program. It listens on a local port, serves each request by a run of the agent, and starts the
client in front of it.

- `src/` is the library: the prompt that a transcript becomes, recognising a conversation so that
  only what is new has to be sent, reading HTTP requests, turning the agent's events into the
  client's stream or into one reply, and how the agent is found and started. The functions
  have contracts that Verus proves, except for a few small ones that only make a call named below,
  whose contracts it takes on trust. Functions whose names begin with `law_` state what holds
  across functions.
- `app/` is the program around it: sockets, processes, signals and files.
- `tests/` runs the library on concrete values.

What is taken on trust is stated where it is used: `src/json.rs` relies on `serde_json` for reading
and writing JSON, `src/http.rs` on `str::to_lowercase`, and `src/agent.rs` on
`String::from_utf8_lossy`.
