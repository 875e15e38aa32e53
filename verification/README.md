# aizumi

A message broker. Clients send messages to one another through the broker;
each client has a queue of the messages addressed to it. The library holds
the broker's logic with machine-checked contracts; `app/` is the HTTP
service around it.

- `message`, `messaging`, `queue`: the JSON protocol (SEND, RECV, FREE,
  HELO, STAT, GBYE requests) and the per-client queues it works on.
- `keyed_queue`: a pool from which a message is taken out by its id.
- `broker`, `consensus`, `network`, `session`: the replicated broker state
  (waiting and delivered messages per client) and the decisions around the
  consensus node and the client connections.
- `bytes`, `decimal`, `json`, `address`: wire encodings, decimal text,
  JSON strings and service addresses.
- `timer`, `raft_timer`: timestamp records and their text.
- `cli`, `config`: command-line settings and their defaults.
