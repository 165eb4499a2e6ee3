# async-chat

A small group chat system: a server that keeps named groups and broadcasts
the messages posted to them, a command-line client, and the state model of a
web client. The library in `src/` is verified with Verus; `app/` holds the
TCP server and client that run it.

- `protocol` — the messages between clients and the server.
- `text` — whitespace, splitting into words, joining, trimming, decimals.
- `command`, `client` — the client's command language and how replies are shown.
- `group`, `group_table`, `server` — groups with their broadcast channels, the
  table of groups, and the handling of one request. Each group's channel is
  modelled by the messages handed to it; a subscriber is modelled by the
  messages it skips, those posted before it joined.
- `user` — registered and logged-in users.
- `ui`, `chat`, `view` — the web client's model, its chat-state reducers, and
  what its components show.
- `message_list` — the day dividers and time labels of the message list.
- `assoc`, `clock` — lists of pairs seen as maps; the wall clock.
