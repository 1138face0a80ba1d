# tuimessager

A self-hosted messenger: a chat server over SQLite and a four-pane client for the terminal.
Its rules are written and proved in Verus.

- `src/` is the verified library. It touches no file, socket, database or screen. A request to
  the server is a machine that asks for one action at a time (a statement or a file) and is
  handed what came of it. Passwords are hashed and checked with Argon2. The client is a state
  that keys, answers and live events change, and a list of widgets that describes the screen.
- `app/` does what the library asks for: axum and rusqlite on the server, reqwest, crossterm and
  ratatui in the client, and serde for what goes over the wire.
- `tests/` runs the library, the server's requests against an in-memory database.

| Module | What it holds |
|---|---|
| `protocol` | users, servers, channels, messages, requests and live events |
| `exchange` | actions, events, stages and replies of the server's requests |
| `db` | the schema, statements and rows |
| `accounts`, `rooms`, `messages` | the server's requests |
| `passwords` | hashing and checking with Argon2 |
| `routes` | who may ask what, and the live socket |
| `calls` | what holds of whole requests |
| `client` | the requests that the client sends |
| `app`, `keys`, `login` | the client's state, key bindings and login |
| `ui`, `style`, `markdown` | what the screen shows |
| `config`, `server_config` | settings |
| `text`, `time`, `id`, `codec` | texts, points in time, identifiers, encodings |
