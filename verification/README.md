# krot

The protocol, the rules and the state machines of KROT, a tunnel that publishes
local TCP and HTTP services through a relay.

- `src/proto`: identifiers, frames, framing, stream and mux headers, the
  authentication challenge.
- `src/server`: authorized keys, admin tokens, the handshake, rate limits,
  metrics, the admin API, peers, and the HTTP and HTTPS routers.
- `src/client`: configuration and enrollment, sessions, published tunnels, the
  machine behind each Data stream, local authentication and the inspector.
- `src/codec.rs`, `src/http_parse.rs`, `src/clock.rs`: outside crates and clocks
  as functions on plain values.
- `app`: the command line, sockets, TLS and files around the library.

Functions that read a clock or random bytes come in pairs: `name` draws the
values, and `name_at` (or `name_with`) takes them and says exactly what follows.
The statements that relate several functions are the proof functions whose names
begin with `law_`.
