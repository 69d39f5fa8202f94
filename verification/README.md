# netfax

A small networking layer for games: a hub (server) that accepts players over
TCP, hands each address a player id, and lets its user exchange messages with
players over the reliable TCP stream or over UDP datagrams; and clients that
connect to a hub.

`src/` is the verified library:

- `registry` — the hub's players: ids from 0 upwards, one per address ever
  seen, kept across reconnects; which players are connected; how events from
  the network side become events for the user.
- `nodes` — the network side's table of live connection threads and how
  requests from the user are routed to them.
- `hub`, `client` — the user-side handles over the channels to the network
  threads.
- `wire`, `compression` — length-prefixed, Snappy-compressed frames on the
  TCP stream.
- `addr`, `messages`, `channel` — addresses as plain integers, the message
  types, and the channel ends, each with a ghost record of the messages that
  passed through it; the hub's contracts speak of those records.

`app/` holds what needs sockets, threads and serde: `start_server`,
`start_client`, the per-connection threads, and the blocking `recv` of a hub.
