# agent_host

The logic of a host for coding agents, verified with Verus. Every function states in its contract
what it returns; the contracts speak of texts as sequences of characters.

- `src/text.rs`, `src/decimal.rs`, `src/json.rs`, `src/time.rs`: texts, numbers, JSON values and
  instants. What `serde_json`, `chrono` and the standard library compute is called from here.
- `src/git_host/`: the hosting platform that a URL names, and the `az` and `gh` command line tools:
  the arguments they are called with, and what their answers mean.
- `src/opencode/`: an OpenCode server from its start to the end of a session.
  - `server_url`, `executor`, `session`: starting the server and a session, and running a prompt.
  - `sse`, `stream`, `pieces`, `listener`: the stream of events, across lost connections.
  - `approvals`: requests for permission.
  - `events`, `inputs`, `tools`, `tool_calls`, `normalize`, `logs`: the conversation that the log of
    a session tells of.
  - `report`, `event_report`: what is told of a run for debugging.
- `app/`: processes, connections, files and the formats on the wire. Its program runs an agent on a
  project without letting it change anything, and reports what came of it.

Laws that relate several functions are public proof functions whose names begin with `lemma_`.
