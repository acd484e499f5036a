# repe

REPE is a small remote procedure call protocol: a message is a header of 48
bytes, a query (most often a path) and a body. This crate holds its framing, its
routing and the rules of its transports, verified with Verus.

- `src/` is the library. Nothing in it waits, reads or sends: what is on the
  wire, what time it is and what a socket did are arguments.
- `tests/` runs the library against the crates that it calls.
- `app/` puts sockets, threads, tasks and clocks around the library.

| modules | what they hold |
| --- | --- |
| `constants`, `error`, `wire`, `message` | frames, and reading and writing them |
| `codec`, `text` | the calls into serde_json, beve and std |
| `path`, `structs`, `mount` | JSON pointers, structs and registries behind a mount |
| `handler`, `typed`, `server`, `server_request` | handlers, middleware, routing, answering |
| `stream` | credit, replay and resumption of long transfers |
| `value_stream` | values pulled chunk by chunk |
| `websocket_limits`, `websocket_server`, `websocket_client`, `wasm_client`, `peer` | WebSocket connections |
| `udp_client`, `uniudp_fleet` | messages over UDP, to one node or many |

A `pub proof fn` states a law of the library. Each call into another crate
stands behind a function whose comment says what is taken for granted of it.
