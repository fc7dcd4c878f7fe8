# nagent

A local speech and chat server whose decisions are verified with Verus.

- `src/` is the library: ordinary Rust with contracts, every function proved.
  - `proto`, `error_code`, `validation`: the WebSocket protocol and the checks on
    what clients send.
  - `session`, `ws_handler`, `backend`, `router`, `watchdog`: sessions, one
    connection, transcription and its way back.
  - `rate_limit`, `server`, `middleware`, `http`: limits for each address, routes,
    headers and answers.
  - `version`, `static_assets`, `fingerprint`: the browser's files and how a page
    knows that they have changed.
  - `llm`, `llm_prompt`, `sse`, `round`, `tool_loop`: the chat proxy and the loop
    between the model and the agents.
  - `agents`: the agents that fetch pages, tell the time, the weather and share
    prices.
  - `config`, `config_file`: environment over files over defaults.
  - `json`, `text`, `net`, `maps`: the values that the rest speaks of.
- `tests/` runs the library.
- `app/` is the program around it: sockets, HTTP, clocks, files, and the arithmetic
  on floating-point numbers.

Functions of outside crates that the library calls stand behind small functions
whose contracts are believed, not proved; the doc comment of each says what it
claims.
