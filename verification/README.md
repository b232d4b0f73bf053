# klukai_admin

The admin socket of a node, verified with Verus. A client sends a command, and the server answers
it with log lines, JSON values and, at the end, success or an error.

The library in `src/` holds what both sides decide; it does no I/O and never waits.

- `protocol` says, as a table, what the server makes of each event on a connection: what it replies
  and what it has done next. `session` carries the table out.
- `laws` proves what holds of every conversation: that the client learns how each command ended,
  that a failed command leaves the connection open, that a cluster id is set only once it is stored
  and committed, that each actor with gaps has its turn.
- `gaps` collects the gaps on record and collapses them into the fewest ranges.
- `client` decides what the client does with each response.
- `startup` holds the steps of starting to listen, and what the server does between connections.
- `command`, `response`, `level`, `error`, `ids` and `locks` are the data that both sides speak of.
- `report` and `json` build the JSON of the answers, `filter` parses log filters, and `text` writes
  numbers and puts SQL on one line.

`app/` is the rest: the socket, the wire format, the database and the node around the server. It
takes the actions that a session asks for and tells it what came of them.
